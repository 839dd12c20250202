//! Loss recovery: the sender's retransmission store and the receiver's gap detection.

use crate::outside::random_u32;
use crate::rtp::packets;
use crate::rtp::GenericNack;
use crate::rtp::PacketView;
use crate::rtp::RtpPacket;
use crate::rtx::wrap_rtx_packet;
use crate::rtx::wrapped;
use crate::rtx::RtxSenderConfig;
use std::collections::HashMap;
use std::collections::HashSet;
use std::collections::VecDeque;
use vstd::prelude::*;
use vstd::std_specs::hash::*;

verus! {

broadcast use vstd::std_specs::hash::group_hash_axioms;

/// How long a sequence number is not retransmitted again, in nanoseconds.
pub const NACK_RESEND_COOLDOWN: u64 = 25_000_000;

/// The most sequence numbers that one receiver NACK names.
pub const MAX_RECEIVER_NACK_GAP: usize = 128;

/// The model of the retransmission store: sequence numbers in the order they were first sent, and
/// the packet kept for each.
#[verifier::ext_equal]
pub struct BufferView {
    pub order: Seq<u16>,
    pub packets: Map<u16, PacketView>,
}

impl BufferView {
    /// Every number in the order is there once and names a kept packet with that number, and
    /// nothing else is kept.
    pub open spec fn wf(self) -> bool {
        &&& self.order.no_duplicates()
        &&& forall|s: u16| self.packets.contains_key(s) <==> #[trigger] self.order.contains(s)
        &&& forall|s: u16|
            self.packets.contains_key(s) ==> (#[trigger] self.packets[s]).header.sequence_number
                == s
    }

    /// The store after a packet: a number that is kept already has its packet replaced; another
    /// is appended, and the oldest leave until at most `max` are left.
    pub open spec fn pushed(self, p: PacketView, max: nat) -> BufferView {
        let s = p.header.sequence_number;
        if self.packets.contains_key(s) {
            BufferView { order: self.order, packets: self.packets.insert(s, p) }
        } else {
            let all = self.order.push(s);
            let order = if all.len() > max {
                all.skip(all.len() - max)
            } else {
                all
            };
            BufferView {
                order,
                packets: self.packets.insert(s, p).restrict(order.to_set()),
            }
        }
    }
}

/// A bounded store of sent packets, found by sequence number.
pub struct NackSendBuffer {
    order: VecDeque<u16>,
    packets: HashMap<u16, RtpPacket>,
}

impl View for NackSendBuffer {
    type V = BufferView;

    closed spec fn view(&self) -> BufferView {
        BufferView {
            order: self.order@,
            packets: self.packets@.map_values(|p: RtpPacket| p@),
        }
    }
}

impl NackSendBuffer {
    /// An empty store.
    pub fn with_capacity(max_size: usize) -> (r: Self)
        ensures
            r@.wf(),
            r@.order.len() == 0,
            r@.packets == Map::<u16, PacketView>::empty(),
    {
        let r = NackSendBuffer { order: VecDeque::new(), packets: HashMap::new() };
        assert(r@.packets =~= Map::<u16, PacketView>::empty());
        r
    }

    /// The number of packets kept.
    pub fn len(&self) -> (r: usize)
        requires
            self@.wf(),
        ensures
            r == self@.order.len(),
    {
        self.order.len()
    }

    /// The packet kept for a sequence number.
    pub fn get(&self, seq: u16) -> (r: Option<&RtpPacket>)
        ensures
            match r {
                Some(p) => self@.packets.contains_key(seq) && self@.packets[seq] == p@,
                None => !self@.packets.contains_key(seq),
            },
    {
        self.packets.get(&seq)
    }

    /// Stores a packet; the oldest leave while more than `max_size` are kept.
    pub fn push(&mut self, packet: RtpPacket, max_size: usize)
        requires
            old(self)@.wf(),
        ensures
            final(self)@.wf(),
            final(self)@ == old(self)@.pushed(packet@, max_size as nat),
            old(self)@.order.len() <= max_size ==> final(self)@.order.len() <= max_size,
    {
        let seq: u16 = packet.header.sequence_number;
        let ghost p = packet@;
        let ghost before = self@;
        proof {
            pushed_keeps_order(before, p, max_size as nat);
        }
        if self.packets.contains_key(&seq) {
            self.packets.insert(seq, packet);
            assert(self@.packets =~= before.packets.insert(seq, p));
            return;
        }
        self.packets.insert(seq, packet);
        self.order.push_back(seq);
        let ghost full = self@;
        assert(full.packets =~= before.packets.insert(seq, p));
        assert(full.order =~= before.order.push(seq));
        let ghost mut gone: int = 0;
        proof {
            pushed_keeps_order(before, p, full.order.len());
            assert(full.order.skip(0) =~= full.order);
            assert(full.packets =~= full.packets.restrict(full.order.to_set()));
        }
        while self.order.len() > max_size
            invariant
                0 <= gone <= full.order.len(),
                gone <= (if full.order.len() > max_size {
                    full.order.len() - max_size
                } else {
                    0
                }),
                full.order.no_duplicates(),
                self@.order == full.order.skip(gone),
                self@.packets == full.packets.restrict(self@.order.to_set()),
            decreases self.order@.len(),
        {
            let ghost now = self@;
            if let Some(oldest) = self.order.pop_front() {
                self.packets.remove(&oldest);
                proof {
                    gone = gone + 1;
                    assert(self@.order =~= full.order.skip(gone));
                    assert(self@.packets =~= now.packets.remove(oldest));
                    assert forall|s: u16|
                        now.order.contains(s) && s != oldest <==> #[trigger] self@.order.contains(
                            s,
                        ) by {
                        if now.order.contains(s) && s != oldest {
                            let i = now.order.index_of(s);
                            assert(self@.order[i - 1] == s);
                        }
                        if self@.order.contains(s) {
                            let i = self@.order.index_of(s);
                            assert(now.order[i + 1] == s);
                            assert(now.order[i + 1] == full.order[gone + i]);
                            assert(now.order[0] == full.order[gone - 1]);
                        }
                    }
                    assert(self@.packets =~= full.packets.restrict(self@.order.to_set()));
                }
            }
        }
        assert(self@ =~= before.pushed(p, max_size as nat));
    }
}

proof fn pushed_keeps_order(b: BufferView, p: PacketView, max: nat)
    requires
        b.wf(),
    ensures
        b.pushed(p, max).wf(),
        b.order.len() <= max ==> b.pushed(p, max).order.len() <= max,
        !b.packets.contains_key(p.header.sequence_number) ==> {
            let all = b.order.push(p.header.sequence_number);
            &&& all.no_duplicates()
            &&& b.packets.insert(p.header.sequence_number, p).dom() =~= all.to_set()
        },
{
    let s = p.header.sequence_number;
    let after = b.pushed(p, max);
    if !b.packets.contains_key(s) {
        let all = b.order.push(s);
        assert(!b.order.contains(s));
        assert(all.no_duplicates());
        assert forall|x: u16| b.packets.insert(s, p).contains_key(x) <==> #[trigger] all.contains(
            x,
        ) by {
            if x == s {
                assert(all[b.order.len() as int] == x);
            } else {
                if b.order.contains(x) {
                    assert(all[b.order.index_of(x)] == x);
                }
                if all.contains(x) {
                    assert(b.order[all.index_of(x)] == x);
                }
            }
        }
        assert forall|x: u16| after.packets.contains_key(x) <==> #[trigger] after.order.contains(
            x,
        ) by {
            if after.order.contains(x) {
                let i = after.order.index_of(x);
                let n = all.len() - after.order.len();
                assert(all[n + i] == x);
                assert(all.contains(x));
            }
        }
    } else {
        assert(b.order.contains(s));
    }
}

/// The state that answering a NACK reads and changes.
pub struct ResendState {
    /// When each number was last accepted for retransmission.
    pub recent: Map<u16, u64>,
    /// The numbers that the report at hand has named.
    pub seen: Set<u16>,
    /// The requests that were turned down.
    pub suppressed: u64,
    /// The packets to send again.
    pub out: Seq<PacketView>,
}

/// `last` is less than the cooldown before `now`.
pub open spec fn cooling(now: u64, last: u64) -> bool {
    (if now >= last {
        now - last
    } else {
        0
    }) < NACK_RESEND_COOLDOWN
}

/// One requested number: turned down if the report named it before or if it was sent again within
/// the cooldown; sent again if its packet is kept.
pub open spec fn resend_step(
    buffer: Map<u16, PacketView>,
    st: ResendState,
    seq: u16,
    now: u64,
) -> ResendState {
    if st.seen.contains(seq) {
        ResendState { suppressed: st.suppressed.wrapping_add(1), ..st }
    } else if st.recent.contains_key(seq) && cooling(now, st.recent[seq]) {
        ResendState {
            seen: st.seen.insert(seq),
            suppressed: st.suppressed.wrapping_add(1),
            ..st
        }
    } else if buffer.contains_key(seq) {
        ResendState {
            recent: st.recent.insert(seq, now),
            seen: st.seen.insert(seq),
            suppressed: st.suppressed,
            out: st.out.push(buffer[seq]),
        }
    } else {
        ResendState { seen: st.seen.insert(seq), ..st }
    }
}

/// The requests from index `k` on, in order.
pub open spec fn resend_from(
    buffer: Map<u16, PacketView>,
    seqs: Seq<u16>,
    k: int,
    st: ResendState,
    now: u64,
) -> ResendState
    decreases seqs.len() - k,
{
    if k < 0 || k >= seqs.len() {
        st
    } else {
        resend_from(buffer, seqs, k + 1, resend_step(buffer, st, seqs[k], now), now)
    }
}

/// The times that are still within the cooldown.
pub open spec fn still_cooling(recent: Map<u16, u64>, now: u64) -> Map<u16, u64> {
    Map::new(|s: u16| recent.contains_key(s) && cooling(now, recent[s]), |s: u16| recent[s])
}

/// The model of the sender's NACK handler.
pub struct SenderNackView {
    pub buffer: BufferView,
    pub recent: Map<u16, u64>,
    pub max_size: nat,
    pub nack_recv_count: u64,
    pub retransmit_suppressed_count: u64,
    pub rtx_config: Option<RtxSenderConfig>,
    pub rtx_seq: u16,
    pub rtx_sent_count: u64,
}

/// Keeps sent packets and answers the receiver's NACKs.
pub struct DefaultRtpSenderNackHandler {
    buffer: NackSendBuffer,
    recent_resends: HashMap<u16, u64>,
    max_size: usize,
    pub nack_recv_count: u64,
    pub retransmit_suppressed_count: u64,
    rtx_config: Option<RtxSenderConfig>,
    rtx_seq: u16,
    rtx_sent_count: u64,
}

impl View for DefaultRtpSenderNackHandler {
    type V = SenderNackView;

    closed spec fn view(&self) -> SenderNackView {
        SenderNackView {
            buffer: self.buffer@,
            recent: self.recent_resends@,
            max_size: self.max_size as nat,
            nack_recv_count: self.nack_recv_count,
            retransmit_suppressed_count: self.retransmit_suppressed_count,
            rtx_config: self.rtx_config,
            rtx_seq: self.rtx_seq,
            rtx_sent_count: self.rtx_sent_count,
        }
    }
}

impl SenderNackView {
    /// At least one packet may be kept, and no more are kept than may be.
    pub open spec fn wf(self) -> bool {
        &&& self.max_size >= 1
        &&& self.buffer.wf()
        &&& self.buffer.order.len() <= self.max_size
    }

    /// The SSRC of the retransmission stream, 0 while there is none.
    pub open spec fn rtx_ssrc(self) -> u32 {
        match self.rtx_config {
            Some(c) => c.rtx_ssrc,
            None => 0,
        }
    }

    /// The handler after a packet was sent: it is kept, unless it is a retransmission itself.
    pub open spec fn sent(self, p: PacketView) -> SenderNackView {
        SenderNackView {
            buffer: if self.rtx_ssrc() != 0 && p.header.ssrc == self.rtx_ssrc() {
                self.buffer
            } else {
                self.buffer.pushed(p, self.max_size)
            },
            ..self
        }
    }

    /// The handler after the numbers that a report names were looked up.
    pub open spec fn requested(self, seqs: Seq<u16>, now: u64) -> SenderNackView {
        SenderNackView {
            recent: self.recent_after(seqs, now),
            retransmit_suppressed_count: self.resend_end(seqs, now).suppressed,
            ..self
        }
    }

    /// What goes out in answer to a report: the packets to send again, wrapped on the
    /// retransmission stream where there is one.
    pub open spec fn answer(self, seqs: Seq<u16>, now: u64) -> Seq<PacketView> {
        let out = self.resend_end(seqs, now).out;
        match self.rtx_config {
            Some(c) => wrapped_all(out, c, self.rtx_seq),
            None => out,
        }
    }

    /// The handler after it has answered a report.
    pub open spec fn answered(self, seqs: Seq<u16>, now: u64) -> SenderNackView {
        SenderNackView {
            nack_recv_count: self.nack_recv_count.wrapping_add(seqs.len() as u64),
            rtx_seq: if self.rtx_config is Some {
                ((self.rtx_seq + self.answer(seqs, now).len()) % 0x1_0000) as u16
            } else {
                self.rtx_seq
            },
            ..self.requested(seqs, now)
        }
    }

    /// The cooldown of a number lasts.
    pub open spec fn cools(self, q: u16, now: u64) -> bool {
        self.recent.contains_key(q) && cooling(now, self.recent[q])
    }

    /// Where the answer to a report starts.
    pub open spec fn resend_start(self) -> ResendState {
        ResendState {
            recent: self.recent,
            seen: Set::empty(),
            suppressed: self.retransmit_suppressed_count,
            out: Seq::empty(),
        }
    }

    /// Where the answer to a report ends.
    pub open spec fn resend_end(self, seqs: Seq<u16>, now: u64) -> ResendState {
        resend_from(self.buffer.packets, seqs, 0, self.resend_start(), now)
    }

    /// The times kept after a report: those within the cooldown once they outnumber the store
    /// twice over.
    pub open spec fn recent_after(self, seqs: Seq<u16>, now: u64) -> Map<u16, u64> {
        let recent = self.resend_end(seqs, now).recent;
        if recent.dom().len() > 2 * self.max_size {
            still_cooling(recent, now)
        } else {
            recent
        }
    }
}

/// The retransmissions of a list of packets on an RTX stream, numbered from `seq`.
pub open spec fn wrapped_all(p: Seq<PacketView>, config: RtxSenderConfig, seq: u16) -> Seq<
    PacketView,
> {
    Seq::new(p.len(), |i: int| wrapped(p[i], config, ((seq + i) % 0x1_0000) as u16))
}

impl DefaultRtpSenderNackHandler {
    /// A handler that keeps at most `max_size` packets, at least one. The retransmission stream
    /// starts at a random sequence number.
    pub fn new(max_size: usize) -> (r: Self)
        ensures
            r@.wf(),
            r@.max_size == (if max_size == 0 {
                1
            } else {
                max_size as nat
            }),
            r@.buffer.order.len() == 0,
            r@.buffer.packets == Map::<u16, PacketView>::empty(),
            r@.recent == Map::<u16, u64>::empty(),
            r@.nack_recv_count == 0,
            r@.retransmit_suppressed_count == 0,
            r@.rtx_config is None,
            r@.rtx_sent_count == 0,
    {
        let first: u16 = (random_u32() % 0x1_0000) as u16;
        Self::with_first_rtx_sequence(max_size, first)
    }

    /// A handler whose retransmission stream starts at a given sequence number.
    pub fn with_first_rtx_sequence(max_size: usize, first: u16) -> (r: Self)
        ensures
            r@.wf(),
            r@.max_size == (if max_size == 0 {
                1
            } else {
                max_size as nat
            }),
            r@.buffer.order.len() == 0,
            r@.buffer.packets == Map::<u16, PacketView>::empty(),
            r@.recent == Map::<u16, u64>::empty(),
            r@.nack_recv_count == 0,
            r@.retransmit_suppressed_count == 0,
            r@.rtx_config is None,
            r@.rtx_seq == first,
            r@.rtx_sent_count == 0,
    {
        let max_size: usize = if max_size == 0 {
            1
        } else {
            max_size
        };
        DefaultRtpSenderNackHandler {
            buffer: NackSendBuffer::with_capacity(max_size),
            recent_resends: HashMap::new(),
            max_size,
            nack_recv_count: 0,
            retransmit_suppressed_count: 0,
            rtx_config: None,
            rtx_seq: first,
            rtx_sent_count: 0,
        }
    }

    /// Turns retransmission on a stream of its own on or off.
    pub fn set_rtx(&mut self, config: Option<RtxSenderConfig>)
        ensures
            final(self)@ == (SenderNackView { rtx_config: config, ..old(self)@ }),
    {
        self.rtx_config = config;
    }

    /// The retransmission stream.
    pub fn rtx_config(&self) -> (r: Option<RtxSenderConfig>)
        ensures
            r == self@.rtx_config,
    {
        self.rtx_config
    }

    /// The SSRC of the retransmission stream, 0 while there is none.
    pub fn rtx_ssrc(&self) -> (r: u32)
        ensures
            r == self@.rtx_ssrc(),
    {
        match self.rtx_config {
            Some(c) => c.rtx_ssrc,
            None => 0,
        }
    }

    /// The number of packets kept.
    pub fn buffered_packet_count(&self) -> (r: usize)
        requires
            self@.wf(),
        ensures
            r == self@.buffer.order.len(),
            r <= self@.max_size,
    {
        self.buffer.len()
    }

    /// The sequence numbers that NACKs have named.
    pub fn get_nack_count(&self) -> (r: u64)
        ensures
            r == self@.nack_recv_count,
    {
        self.nack_recv_count
    }

    /// The retransmissions sent on the RTX stream.
    pub fn get_rtx_sent_count(&self) -> (r: u64)
        ensures
            r == self@.rtx_sent_count,
    {
        self.rtx_sent_count
    }

    /// The requests that were turned down.
    pub fn get_suppressed_count(&self) -> (r: u64)
        ensures
            r == self@.retransmit_suppressed_count,
    {
        self.retransmit_suppressed_count
    }

    /// Keeps a packet that was sent, unless it is a retransmission itself.
    pub fn on_packet_sent(&mut self, packet: &RtpPacket)
        requires
            old(self)@.wf(),
        ensures
            final(self)@.wf(),
            final(self)@ == old(self)@.sent(packet@),
    {
        let rtx: u32 = self.rtx_ssrc();
        if rtx != 0 && packet.header.ssrc == rtx {
            return;
        }
        self.buffer.push(packet.clone(), self.max_size);
    }

    /// The kept packets to send again for the numbers that a NACK names.
    pub fn packets_for_nack(&mut self, seqs: &Vec<u16>, now: u64) -> (r: Vec<RtpPacket>)
        requires
            old(self)@.wf(),
        ensures
            packets(r@) == old(self)@.resend_end(seqs@, now).out,
            final(self)@ == old(self)@.requested(seqs@, now),
            final(self)@.wf(),
    {
        let ghost before = self@;
        let mut out: Vec<RtpPacket> = Vec::new();
        let mut seen: HashSet<u16> = HashSet::new();
        let mut i: usize = 0;
        assert(packets(out@) =~= Seq::<PacketView>::empty());
        while i < seqs.len()
            invariant
                i <= seqs@.len(),
                before.wf(),
                self@ == (SenderNackView {
                    recent: self@.recent,
                    retransmit_suppressed_count: self@.retransmit_suppressed_count,
                    ..before
                }),
                before.resend_end(seqs@, now) == resend_from(
                    before.buffer.packets,
                    seqs@,
                    i as int,
                    (ResendState {
                        recent: self@.recent,
                        seen: seen@,
                        suppressed: self@.retransmit_suppressed_count,
                        out: packets(out@),
                    }),
                    now,
                ),
            decreases seqs@.len() - i,
        {
            let seq: u16 = seqs[i];
            let ghost st = ResendState {
                recent: self@.recent,
                seen: seen@,
                suppressed: self@.retransmit_suppressed_count,
                out: packets(out@),
            };
            if !seen.insert(seq) {
                self.retransmit_suppressed_count = self.retransmit_suppressed_count.wrapping_add(
                    1,
                );
                assert(seen@ =~= st.seen);
            } else {
                let turned_down: bool = match self.recent_resends.get(&seq) {
                    Some(last) => now.saturating_sub(*last) < NACK_RESEND_COOLDOWN,
                    None => false,
                };
                if turned_down {
                    self.retransmit_suppressed_count =
                    self.retransmit_suppressed_count.wrapping_add(1);
                } else {
                    let found: Option<RtpPacket> = match self.buffer.get(seq) {
                        Some(p) => Some(p.clone()),
                        None => None,
                    };
                    if let Some(p) = found {
                        self.recent_resends.insert(seq, now);
                        let ghost list = out@;
                        out.push(p);
                        assert(packets(out@) =~= packets(list).push(p@));
                    }
                }
            }
            i += 1;
        }
        if self.recent_resends.len() as u128 > self.max_size as u128 * 2 {
            self.forget_cooled(now);
        }
        out
    }

    /// Drops the times that are past the cooldown.
    fn forget_cooled(&mut self, now: u64)
        ensures
            final(self)@ == (SenderNackView {
                recent: still_cooling(old(self)@.recent, now),
                ..old(self)@
            }),
    {
        let ghost before = self@.recent;
        let mut kept: HashMap<u16, u64> = HashMap::new();
        let ghost mut seen: Set<u16> = Set::empty();
        for k in it: self.recent_resends.keys()
            invariant
                it.seq().unref().to_set() == before.dom(),
                forall|j: int| 0 <= j < it.index() ==> seen.contains(#[trigger] it.seq().unref()[j]),
                before == self.recent_resends@,
                forall|s: u16|
                    #![trigger kept@.contains_key(s)]
                    kept@.contains_key(s) <==> (before.contains_key(s) && cooling(
                        now,
                        before[s],
                    ) && seen.contains(s)),
                forall|s: u16| kept@.contains_key(s) ==> #[trigger] kept@[s] == before[s],
        {
            assert(it.seq().unref()[it.index()] == *k);
            assert(it.seq().unref().to_set().contains(*k));
            proof {
                seen = seen.insert(*k);
            }
            if let Some(last) = self.recent_resends.get(k) {
                if now.saturating_sub(*last) < NACK_RESEND_COOLDOWN {
                    kept.insert(*k, *last);
                }
            }
        }
        assert(before.dom().subset_of(seen));
        assert(kept@ =~= still_cooling(before, now));
        self.recent_resends = kept;
    }

    /// Answers a NACK: counts the numbers it names and hands back the packets to send, wrapped on
    /// the retransmission stream where there is one.
    pub fn on_nack(&mut self, nack: &GenericNack, now: u64) -> (r: Vec<RtpPacket>)
        requires
            old(self)@.wf(),
        ensures
            packets(r@) == old(self)@.answer(nack.lost_packets@, now),
            final(self)@ == old(self)@.answered(nack.lost_packets@, now),
            final(self)@.wf(),
    {
        let ghost before = self@;
        self.nack_recv_count = self.nack_recv_count.wrapping_add(nack.lost_packets.len() as u64);
        let plain = self.packets_for_nack(&nack.lost_packets, now);
        let ghost p = packets(plain@);
        match self.rtx_config {
            Some(config) => {
                let ghost first = self.rtx_seq;
                let ghost start = self@;
                let mut out: Vec<RtpPacket> = Vec::new();
                let mut i: usize = 0;
                while i < plain.len()
                    invariant
                        i <= plain@.len(),
                        p == packets(plain@),
                        packets(out@) == wrapped_all(p, config, first).take(i as int),
                        self.rtx_seq == (first + i) % 0x1_0000,
                        self@ == (SenderNackView { rtx_seq: self.rtx_seq, ..start }),
                        out@.len() == i,
                    decreases plain@.len() - i,
                {
                    let ghost list = out@;
                    let w = wrap_rtx_packet(&plain[i], &config, self.rtx_seq);
                    assert(p[i as int] == plain@[i as int]@);
                    out.push(w);
                    assert(packets(out@) =~= packets(list).push(w@));
                    self.rtx_seq = self.rtx_seq.wrapping_add(1);
                    i += 1;
                    assert(wrapped_all(p, config, first).take(i as int) =~= wrapped_all(
                        p,
                        config,
                        first,
                    ).take(i - 1).push(wrapped_all(p, config, first)[i - 1]));
                }
                assert(packets(out@) =~= wrapped_all(p, config, first));
                out
            },
            None => plain,
        }
    }

    /// Counts a retransmission that left on the RTX stream.
    pub fn note_rtx_sent(&mut self)
        ensures
            final(self)@ == (SenderNackView {
                rtx_sent_count: old(self)@.rtx_sent_count.wrapping_add(1),
                ..old(self)@
            }),
    {
        self.rtx_sent_count = self.rtx_sent_count.wrapping_add(1);
    }
}

/// The model of the receiver's NACK handler.
#[verifier::ext_equal]
pub struct ReceiverNackView {
    pub last_seq: u16,
    pub last_ssrc: u32,
    pub initialized: bool,
    /// The numbers that were requested and have not come, in the order of the requests.
    pub pending: Seq<u16>,
    pub nack_sent_count: u64,
    pub nack_recovered_count: u64,
}

/// How far `seq` lies after `last` on the circle of sequence numbers.
pub open spec fn distance(last: u16, seq: u16) -> int {
    (seq - last) % 0x1_0000
}

/// The numbers missing between `last` and `seq`, the most recent `MAX_RECEIVER_NACK_GAP` of them.
pub open spec fn missing(last: u16, seq: u16) -> Seq<u16> {
    let gap = distance(last, seq) - 1;
    let count = if gap > MAX_RECEIVER_NACK_GAP {
        MAX_RECEIVER_NACK_GAP as int
    } else {
        gap
    };
    Seq::new(count as nat, |i: int| ((seq - count + i) % 0x1_0000) as u16)
}

/// `pending` with the numbers of `lost` from index `k` on that it does not hold yet.
pub open spec fn merged_from(pending: Seq<u16>, lost: Seq<u16>, k: int) -> Seq<u16>
    decreases lost.len() - k,
{
    if k < 0 || k >= lost.len() {
        pending
    } else if pending.contains(lost[k]) {
        merged_from(pending, lost, k + 1)
    } else {
        merged_from(pending.push(lost[k]), lost, k + 1)
    }
}

/// The pending numbers after a request: once there are more than twice the cap, the oldest leave
/// until the cap is reached.
pub open spec fn pending_after(pending: Seq<u16>, lost: Seq<u16>) -> Seq<u16> {
    let all = merged_from(pending, lost, 0);
    if all.len() > 2 * MAX_RECEIVER_NACK_GAP {
        all.skip(all.len() - MAX_RECEIVER_NACK_GAP)
    } else {
        all
    }
}

impl ReceiverNackView {
    /// The packet continues a stream that the handler has seen.
    pub open spec fn continues(self, ssrc: u32) -> bool {
        self.initialized && (self.last_ssrc == 0 || self.last_ssrc == ssrc)
    }

    /// The packet leaves a gap behind the newest one.
    pub open spec fn leaves_gap(self, seq: u16, ssrc: u32) -> bool {
        &&& self.continues(ssrc)
        &&& !self.pending.contains(seq)
        &&& 1 < distance(self.last_seq, seq) < 32768
    }

    /// The handler after a packet.
    pub open spec fn after(self, seq: u16, ssrc: u32) -> ReceiverNackView {
        if self.last_ssrc != 0 && self.last_ssrc != ssrc {
            ReceiverNackView { last_ssrc: ssrc, last_seq: seq, pending: Seq::empty(), ..self }
        } else if !self.initialized {
            ReceiverNackView { initialized: true, last_ssrc: ssrc, last_seq: seq, ..self }
        } else if self.pending.contains(seq) {
            ReceiverNackView {
                pending: self.pending.remove(self.pending.index_of_first(seq)->0),
                nack_recovered_count: self.nack_recovered_count.wrapping_add(1),
                ..self
            }
        } else if self.leaves_gap(seq, ssrc) {
            ReceiverNackView {
                pending: pending_after(self.pending, missing(self.last_seq, seq)),
                nack_sent_count: self.nack_sent_count.wrapping_add(
                    missing(self.last_seq, seq).len() as u64,
                ),
                last_seq: seq,
                ..self
            }
        } else if distance(self.last_seq, seq) < 32768 {
            ReceiverNackView { last_seq: seq, ..self }
        } else {
            self
        }
    }
}

/// Notices gaps in the received sequence numbers.
pub struct DefaultRtpReceiverNackHandler {
    last_seq: u16,
    last_ssrc: u32,
    initialized: bool,
    pending_nacks: Vec<u16>,
    pub nack_sent_count: u64,
    pub nack_recovered_count: u64,
}

impl View for DefaultRtpReceiverNackHandler {
    type V = ReceiverNackView;

    closed spec fn view(&self) -> ReceiverNackView {
        ReceiverNackView {
            last_seq: self.last_seq,
            last_ssrc: self.last_ssrc,
            initialized: self.initialized,
            pending: self.pending_nacks@,
            nack_sent_count: self.nack_sent_count,
            nack_recovered_count: self.nack_recovered_count,
        }
    }
}

/// A handler that has seen no packet.
pub open spec fn fresh_receiver_nack() -> ReceiverNackView {
    ReceiverNackView {
        last_seq: 0,
        last_ssrc: 0,
        initialized: false,
        pending: Seq::empty(),
        nack_sent_count: 0,
        nack_recovered_count: 0,
    }
}

impl Default for DefaultRtpReceiverNackHandler {
    fn default() -> (r: Self)
        ensures
            r@ == fresh_receiver_nack(),
    {
        Self::new()
    }
}

fn position(v: &Vec<u16>, x: u16) -> (r: Option<usize>)
    ensures
        match r {
            Some(i) => i < v@.len() && v@[i as int] == x && v@.contains(x) && forall|j: int|
                0 <= j < i ==> v@[j] != x,
            None => !v@.contains(x),
        },
{
    let mut i: usize = 0;
    while i < v.len()
        invariant
            i <= v@.len(),
            forall|j: int| 0 <= j < i ==> v@[j] != x,
        decreases v@.len() - i,
    {
        if v[i] == x {
            return Some(i);
        }
        i += 1;
    }
    None
}

/// The numbers missing between the newest one and a later one.
fn missing_numbers(last: u16, seq: u16) -> (r: Vec<u16>)
    requires
        1 < distance(last, seq) < 32768,
    ensures
        r@ == missing(last, seq),
        0 < r@.len() <= MAX_RECEIVER_NACK_GAP,
{
    let gap: usize = seq.wrapping_sub(last) as usize - 1;
    let count: usize = if gap > MAX_RECEIVER_NACK_GAP {
        MAX_RECEIVER_NACK_GAP
    } else {
        gap
    };
    let mut lost: Vec<u16> = Vec::new();
    let mut s: u16 = seq.wrapping_sub(count as u16);
    while lost.len() < count
        invariant
            0 < count <= MAX_RECEIVER_NACK_GAP,
            missing(last, seq).len() == count,
            forall|i: int|
                0 <= i < count ==> #[trigger] missing(last, seq)[i] == (seq - count + i)
                    % 0x1_0000,
            lost@.len() <= count,
            s == (seq - count + lost@.len()) % 0x1_0000,
            lost@ == missing(last, seq).take(lost@.len() as int),
        decreases count - lost@.len(),
    {
        let ghost n = lost@.len() as int;
        lost.push(s);
        s = s.wrapping_add(1);
        assert(missing(last, seq).take(n + 1) =~= missing(last, seq).take(n).push(
            missing(last, seq)[n],
        ));
    }
    assert(missing(last, seq).take(count as int) =~= missing(last, seq));
    lost
}

impl DefaultRtpReceiverNackHandler {
    /// A handler that has seen no packet.
    pub fn new() -> (r: Self)
        ensures
            r@ == fresh_receiver_nack(),
    {
        DefaultRtpReceiverNackHandler {
            last_seq: 0,
            last_ssrc: 0,
            initialized: false,
            pending_nacks: Vec::new(),
            nack_sent_count: 0,
            nack_recovered_count: 0,
        }
    }

    /// The sequence numbers that were requested.
    pub fn get_nack_count(&self) -> (r: u64)
        ensures
            r == self@.nack_sent_count,
    {
        self.nack_sent_count
    }

    /// The requested packets that came.
    pub fn get_recovered_count(&self) -> (r: u64)
        ensures
            r == self@.nack_recovered_count,
    {
        self.nack_recovered_count
    }

    /// Takes note of a packet. A packet that leaves a gap gives the request for what is missing;
    /// its sender SSRC is left 0 for the receiver to fill in.
    pub fn on_packet_received(&mut self, packet: &RtpPacket) -> (r: Option<GenericNack>)
        ensures
            final(self)@ == old(self)@.after(packet@.header.sequence_number, packet@.header.ssrc),
            r is Some <==> old(self)@.leaves_gap(
                packet@.header.sequence_number,
                packet@.header.ssrc,
            ),
            r matches Some(n) ==> n.sender_ssrc == 0 && n.media_ssrc == packet@.header.ssrc
                && n.lost_packets@ == missing(
                old(self)@.last_seq,
                packet@.header.sequence_number,
            ),
    {
        let seq: u16 = packet.header.sequence_number;
        let ssrc: u32 = packet.header.ssrc;
        let ghost before = self@;
        if self.last_ssrc != 0 && self.last_ssrc != ssrc {
            self.last_ssrc = ssrc;
            self.last_seq = seq;
            self.pending_nacks = Vec::new();
            assert(self@ =~= before.after(seq, ssrc));
            return None;
        }
        if !self.initialized {
            self.initialized = true;
            self.last_ssrc = ssrc;
            self.last_seq = seq;
            return None;
        }
        if let Some(i) = position(&self.pending_nacks, seq) {
            proof {
                before.pending.index_of_first_ensures(seq);
            }
            self.pending_nacks.remove(i);
            self.nack_recovered_count = self.nack_recovered_count.wrapping_add(1);
            return None;
        }
        let diff: u16 = seq.wrapping_sub(self.last_seq);
        assert(diff == distance(before.last_seq, seq));
        if diff > 1 && diff < 32768 {
            let lost = missing_numbers(self.last_seq, seq);
            self.expect(&lost);
            self.nack_sent_count = self.nack_sent_count.wrapping_add(lost.len() as u64);
            self.last_seq = seq;
            return Some(GenericNack { sender_ssrc: 0, media_ssrc: ssrc, lost_packets: lost });
        }
        if diff < 32768 {
            self.last_seq = seq;
        }
        None
    }

    /// Remembers the numbers that were requested.
    fn expect(&mut self, lost: &Vec<u16>)
        ensures
            final(self)@ == (ReceiverNackView {
                pending: pending_after(old(self)@.pending, lost@),
                ..old(self)@
            }),
    {
        let ghost before = self@;
        let mut i: usize = 0;
        while i < lost.len()
            invariant
                i <= lost@.len(),
                merged_from(before.pending, lost@, 0) == merged_from(
                    self@.pending,
                    lost@,
                    i as int,
                ),
                self@ == (ReceiverNackView { pending: self@.pending, ..before }),
            decreases lost@.len() - i,
        {
            if position(&self.pending_nacks, lost[i]).is_none() {
                self.pending_nacks.push(lost[i]);
            }
            i += 1;
        }
        if self.pending_nacks.len() > 2 * MAX_RECEIVER_NACK_GAP {
            let n: usize = self.pending_nacks.len() - MAX_RECEIVER_NACK_GAP;
            let kept = self.pending_nacks.split_off(n);
            self.pending_nacks = kept;
            assert(self@.pending =~= merged_from(before.pending, lost@, 0).skip(n as int));
        }
    }
}

proof fn resend_keeps_cooling(
    buffer: BufferView,
    seqs: Seq<u16>,
    k: int,
    st: ResendState,
    now: u64,
    s: u16,
)
    requires
        buffer.wf(),
        0 <= k,
        st.recent.contains_key(s),
        cooling(now, st.recent[s]),
        forall|i: int|
            0 <= i < st.out.len() ==> (#[trigger] st.out[i]).header.sequence_number != s,
    ensures
        forall|i: int|
            0 <= i < resend_from(buffer.packets, seqs, k, st, now).out.len() ==> (
            #[trigger] resend_from(
                buffer.packets,
                seqs,
                k,
                st,
                now,
            ).out[i]).header.sequence_number != s,
    decreases seqs.len() - k,
{
    if k < seqs.len() {
        let next = resend_step(buffer.packets, st, seqs[k], now);
        resend_keeps_cooling(buffer, seqs, k + 1, next, now, s);
        assert(resend_from(buffer.packets, seqs, k, st, now) == resend_from(
            buffer.packets,
            seqs,
            k + 1,
            next,
            now,
        ));
    }
}

/// A number that was sent again less than the cooldown ago is not sent again, whatever a report
/// asks for.
pub proof fn no_resend_within_cooldown(h: SenderNackView, seqs: Seq<u16>, now: u64, s: u16)
    requires
        h.wf(),
        h.recent.contains_key(s),
        cooling(now, h.recent[s]),
    ensures
        forall|i: int|
            0 <= i < h.resend_end(seqs, now).out.len() ==> (#[trigger] h.resend_end(
                seqs,
                now,
            ).out[i]).header.sequence_number != s,
{
    resend_keeps_cooling(h.buffer, seqs, 0, h.resend_start(), now, s);
}

/// What holds of the answer to a report at every point.
spec fn resend_inv(buffer: BufferView, seqs: Seq<u16>, k: int, st: ResendState, now: u64) -> bool {
    &&& forall|i: int|
        0 <= i < st.out.len() ==> st.seen.contains((#[trigger] st.out[i]).header.sequence_number)
            && st.recent.contains_key(st.out[i].header.sequence_number)
            && st.recent[st.out[i].header.sequence_number] == now
    &&& forall|i: int, j: int|
        0 <= i < j < st.out.len() ==> st.out[i].header.sequence_number
            != st.out[j].header.sequence_number
    &&& forall|s: u16| #[trigger] st.seen.contains(s) ==> seqs.take(k).contains(s)
}

proof fn resend_inv_holds(
    buffer: BufferView,
    seqs: Seq<u16>,
    k: int,
    st: ResendState,
    now: u64,
)
    requires
        buffer.wf(),
        0 <= k <= seqs.len(),
        resend_inv(buffer, seqs, k, st, now),
    ensures
        resend_inv(
            buffer,
            seqs,
            seqs.len() as int,
            resend_from(buffer.packets, seqs, k, st, now),
            now,
        ),
    decreases seqs.len() - k,
{
    if k < seqs.len() {
        let s = seqs[k];
        let next = resend_step(buffer.packets, st, s, now);
        assert forall|x: u16| #[trigger] next.seen.contains(x) implies seqs.take(
            k + 1,
        ).contains(x) by {
            if st.seen.contains(x) {
                let j = seqs.take(k).index_of(x);
                assert(seqs.take(k + 1)[j] == x);
            } else {
                assert(seqs.take(k + 1)[k] == x);
            }
        }
        assert forall|i: int, j: int| 0 <= i < j < next.out.len() implies next.out[i].header.sequence_number
            != next.out[j].header.sequence_number by {
            if j == st.out.len() {
                assert(st.seen.contains(st.out[i].header.sequence_number));
            }
        }
        resend_inv_holds(buffer, seqs, k + 1, next, now);
    }
}

/// A report has no packet sent twice, nothing sent that it does not name, and everything that is
/// sent is remembered with the time, so that the cooldown starts.
pub proof fn resends_are_distinct_and_remembered(h: SenderNackView, seqs: Seq<u16>, now: u64)
    requires
        h.wf(),
    ensures
        forall|i: int, j: int|
            0 <= i < j < h.resend_end(seqs, now).out.len() ==> h.resend_end(
                seqs,
                now,
            ).out[i].header.sequence_number != h.resend_end(
                seqs,
                now,
            ).out[j].header.sequence_number,
        forall|i: int|
            0 <= i < h.resend_end(seqs, now).out.len() ==> seqs.contains(
                (#[trigger] h.resend_end(seqs, now).out[i]).header.sequence_number,
            ) && h.recent_after(seqs, now).contains_key(
                h.resend_end(seqs, now).out[i].header.sequence_number,
            ) && h.recent_after(seqs, now)[h.resend_end(
                seqs,
                now,
            ).out[i].header.sequence_number] == now,
{
    let st = h.resend_start();
    assert(resend_inv(h.buffer, seqs, 0, st, now));
    resend_inv_holds(h.buffer, seqs, 0, st, now);
    assert(seqs.take(seqs.len() as int) =~= seqs);
}

proof fn resend_finds(
    buffer: BufferView,
    seqs: Seq<u16>,
    k: int,
    st: ResendState,
    now: u64,
    s: u16,
)
    requires
        buffer.wf(),
        0 <= k,
        buffer.packets.contains_key(s),
        st.out.contains(buffer.packets[s]) || (exists|j: int| k <= j < seqs.len() && seqs[j] == s)
            && !st.seen.contains(s) && (st.recent.contains_key(s) ==> !cooling(
            now,
            st.recent[s],
        )),
    ensures
        resend_from(buffer.packets, seqs, k, st, now).out.contains(buffer.packets[s]),
    decreases seqs.len() - k,
{
    if k < seqs.len() {
        let next = resend_step(buffer.packets, st, seqs[k], now);
        if st.out.contains(buffer.packets[s]) {
            let i = st.out.index_of(buffer.packets[s]);
            assert(next.out[i] == buffer.packets[s]);
        } else if seqs[k] == s {
            assert(next.out[st.out.len() as int] == buffer.packets[s]);
        } else {
            let j = choose|j: int| k <= j < seqs.len() && seqs[j] == s;
            assert(k + 1 <= j);
        }
        resend_finds(buffer, seqs, k + 1, next, now, s);
    }
}

/// A number that is kept, is asked for and is not within the cooldown is sent again.
pub proof fn requested_packets_are_resent(h: SenderNackView, seqs: Seq<u16>, now: u64, s: u16)
    requires
        h.wf(),
        h.buffer.packets.contains_key(s),
        seqs.contains(s),
        h.recent.contains_key(s) ==> !cooling(now, h.recent[s]),
    ensures
        h.resend_end(seqs, now).out.contains(h.buffer.packets[s]),
{
    let j = seqs.index_of(s);
    assert(seqs[j] == s);
    resend_finds(h.buffer, seqs, 0, h.resend_start(), now, s);
}

/// The distinct numbers of a list, in the order of their first occurrences.
pub open spec fn firsts(seqs: Seq<u16>) -> Seq<u16>
    decreases seqs.len(),
{
    if seqs.len() == 0 {
        seqs
    } else {
        let rest = firsts(seqs.drop_last());
        if seqs.drop_last().contains(seqs.last()) {
            rest
        } else {
            rest.push(seqs.last())
        }
    }
}

/// How many requests of a report are turned down: those that repeat one, and the distinct ones
/// whose cooldown lasts.
pub open spec fn turned_down(seqs: Seq<u16>, cool: spec_fn(u16) -> bool) -> int {
    seqs.len() - firsts(seqs).len() + firsts(seqs).filter(cool).len()
}

/// The packets that a report gets: for its distinct numbers in the order of their first
/// occurrences, the kept packet where the number does not cool down.
pub open spec fn granted(
    seqs: Seq<u16>,
    packets: Map<u16, PacketView>,
    cool: spec_fn(u16) -> bool,
) -> Seq<PacketView> {
    firsts(seqs).filter(|q: u16| packets.contains_key(q) && !cool(q)).map_values(
        |q: u16| packets[q],
    )
}

/// The answer to a report that has come as far as the requests in `done`.
spec fn answer_so_far(h: SenderNackView, done: Seq<u16>, now: u64, st: ResendState) -> bool {
    let cool = |q: u16| h.cools(q, now);
    &&& st.out == granted(done, h.buffer.packets, cool)
    &&& st.suppressed == (h.retransmit_suppressed_count + turned_down(done, cool))
        % 0x1_0000_0000_0000_0000
    &&& forall|q: u16| #[trigger] st.seen.contains(q) <==> done.contains(q)
    &&& forall|q: u16|
        #![trigger st.recent.contains_key(q)]
        #![trigger st.recent[q]]
        if done.contains(q) && h.buffer.packets.contains_key(q) && !h.cools(q, now) {
            st.recent.contains_key(q) && st.recent[q] == now
        } else {
            st.recent.contains_key(q) == h.recent.contains_key(q) && (h.recent.contains_key(q)
                ==> st.recent[q] == h.recent[q])
        }
}

proof fn answer_goes_on(h: SenderNackView, seqs: Seq<u16>, k: int, st: ResendState, now: u64)
    requires
        0 <= k <= seqs.len(),
        answer_so_far(h, seqs.take(k), now, st),
    ensures
        answer_so_far(h, seqs, now, resend_from(h.buffer.packets, seqs, k, st, now)),
    decreases seqs.len() - k,
{
    if k < seqs.len() {
        let q = seqs[k];
        let done = seqs.take(k);
        let more = seqs.take(k + 1);
        let next = resend_step(h.buffer.packets, st, q, now);
        let cool = |q: u16| h.cools(q, now);
        let take = |q: u16| h.buffer.packets.contains_key(q) && !cool(q);
        let packet = |q: u16| h.buffer.packets[q];
        reveal(Seq::filter);
        assert(more.drop_last() =~= done);
        assert(more =~= done.push(q));
        assert(firsts(more).drop_last() =~= firsts(done) || done.contains(q));
        assert forall|x: u16| more.contains(x) <==> (#[trigger] done.contains(x) || x == q) by {
            if done.contains(x) {
                assert(more[done.index_of(x)] == x);
            }
            if x == q {
                assert(more[k] == x);
            }
            if more.contains(x) && x != q {
                assert(done[more.index_of(x)] == x);
            }
        }
        if !done.contains(q) && take(q) {
            assert(firsts(more).filter(take) =~= firsts(done).filter(take).push(q));
            assert(firsts(more).filter(take).map_values(packet) =~= firsts(done).filter(
                take,
            ).map_values(packet).push(packet(q)));
        }
        assert(answer_so_far(h, more, now, next));
        answer_goes_on(h, seqs, k + 1, next, now);
    } else {
        assert(seqs.take(k) =~= seqs);
    }
}

/// A report gets the kept packet of each distinct number that it names and that does not cool
/// down, once, in the order of the first requests; every other request for a number that it named
/// before, or that cools down, is counted as turned down; and what is kept stays.
pub proof fn reports_are_answered_once_per_number(h: SenderNackView, seqs: Seq<u16>, now: u64)
    ensures
        h.resend_end(seqs, now).out == granted(
            seqs,
            h.buffer.packets,
            |q: u16| h.cools(q, now),
        ),
        h.requested(seqs, now).retransmit_suppressed_count == (h.retransmit_suppressed_count
            + turned_down(seqs, |q: u16| h.cools(q, now))) % 0x1_0000_0000_0000_0000,
        h.requested(seqs, now).buffer == h.buffer,
{
    answer_starts(h, seqs, now);
}

proof fn answer_starts(h: SenderNackView, seqs: Seq<u16>, now: u64)
    ensures
        answer_so_far(h, seqs, now, h.resend_end(seqs, now)),
{
    reveal(Seq::filter);
    let none = seqs.take(0);
    let cool = |q: u16| h.cools(q, now);
    assert(granted(none, h.buffer.packets, cool) =~= Seq::<PacketView>::empty());
    assert(answer_so_far(h, none, now, h.resend_start()));
    answer_goes_on(h, seqs, 0, h.resend_start(), now);
}

/// One thing that a sender's NACK handler is told.
pub enum NackEvent {
    /// A packet was sent.
    Sent(PacketView),
    /// A report names numbers, at a time.
    Requested(Seq<u16>, u64),
    /// The retransmission stream is set.
    Rtx(Option<RtxSenderConfig>),
}

/// A handler after a list of events.
pub open spec fn ran(h: SenderNackView, events: Seq<NackEvent>) -> SenderNackView
    decreases events.len(),
{
    if events.len() == 0 {
        h
    } else {
        let before = ran(h, events.drop_last());
        match events.last() {
            NackEvent::Sent(p) => before.sent(p),
            NackEvent::Requested(seqs, now) => before.answered(seqs, now),
            NackEvent::Rtx(c) => SenderNackView { rtx_config: c, ..before },
        }
    }
}

/// The time of the latest report that got the packet of a number.
pub open spec fn last_granted(h: SenderNackView, events: Seq<NackEvent>, q: u16) -> Option<u64>
    decreases events.len(),
{
    if events.len() == 0 {
        None
    } else {
        let before = events.drop_last();
        match events.last() {
            NackEvent::Requested(seqs, now) => if exists|i: int|
                0 <= i < ran(h, before).resend_end(seqs, now).out.len() && (#[trigger] ran(
                    h,
                    before,
                ).resend_end(seqs, now).out[i]).header.sequence_number == q {
                Some(now)
            } else {
                last_granted(h, before, q)
            },
            _ => last_granted(h, before, q),
        }
    }
}

/// The time of the last report in a list of events, 0 where there is none.
pub open spec fn last_report(events: Seq<NackEvent>) -> u64
    decreases events.len(),
{
    if events.len() == 0 {
        0
    } else {
        match events.last() {
            NackEvent::Requested(_, now) => now,
            _ => last_report(events.drop_last()),
        }
    }
}

/// No report is earlier than one before it.
pub open spec fn in_order(events: Seq<NackEvent>) -> bool
    decreases events.len(),
{
    events.len() > 0 ==> {
        &&& in_order(events.drop_last())
        &&& events.last() matches NackEvent::Requested(_, now) ==> last_report(
            events.drop_last(),
        ) <= now
    }
}

/// The handler knows when a number was granted last, or its cooldown is over.
spec fn remembers(h: SenderNackView, events: Seq<NackEvent>, q: u16) -> bool {
    let recent = ran(h, events).recent;
    &&& recent.contains_key(q) ==> last_granted(h, events, q) == Some(recent[q])
    &&& last_granted(h, events, q) matches Some(t) ==> t <= last_report(events) && (
    !recent.contains_key(q) ==> !cooling(last_report(events), t))
}

proof fn recent_is_what_was_granted(h: SenderNackView, events: Seq<NackEvent>)
    requires
        h.wf(),
        h.recent == Map::<u16, u64>::empty(),
        in_order(events),
    ensures
        ran(h, events).wf(),
        forall|q: u16| #[trigger] remembers(h, events, q),
    decreases events.len(),
{
    if events.len() > 0 {
        let before = events.drop_last();
        let b = ran(h, before);
        recent_is_what_was_granted(h, before);
        match events.last() {
            NackEvent::Requested(seqs, now) => {
                let end = b.resend_end(seqs, now);
                answer_starts(b, seqs, now);
                assert forall|q: u16| #[trigger] remembers(h, events, q) by {
                    assert(remembers(h, before, q));
                    let hit = seqs.contains(q) && b.buffer.packets.contains_key(q) && !b.cools(
                        q,
                        now,
                    );
                    if hit {
                        requested_packets_are_resent(b, seqs, now, q);
                        let i = end.out.index_of(b.buffer.packets[q]);
                        assert(end.out[i].header.sequence_number == q);
                        assert(last_granted(h, events, q) == Some(now));
                        assert(end.recent.contains_key(q) && end.recent[q] == now);
                    } else {
                        assert forall|i: int| 0 <= i < end.out.len() implies (
                        #[trigger] end.out[i]).header.sequence_number != q by {
                            granted_is_kept(b, seqs, now, i);
                        }
                        assert(last_granted(h, events, q) == last_granted(h, before, q));
                        assert(end.recent.contains_key(q) == b.recent.contains_key(q));
                    }
                }
            },
            NackEvent::Sent(p) => {
                pushed_keeps_order(b.buffer, p, b.max_size);
                assert forall|q: u16| #[trigger] remembers(h, events, q) by {
                    assert(remembers(h, before, q));
                }
            },
            NackEvent::Rtx(_) => {
                assert forall|q: u16| #[trigger] remembers(h, events, q) by {
                    assert(remembers(h, before, q));
                }
            },
        }
    }
}

proof fn granted_is_kept(h: SenderNackView, seqs: Seq<u16>, now: u64, i: int)
    requires
        h.wf(),
        0 <= i < h.resend_end(seqs, now).out.len(),
    ensures
        ({
            let q = h.resend_end(seqs, now).out[i].header.sequence_number;
            &&& seqs.contains(q)
            &&& h.buffer.packets.contains_key(q)
            &&& !h.cools(q, now)
        }),
{
    answer_starts(h, seqs, now);
    resends_are_distinct_and_remembered(h, seqs, now);
    let cool = |q: u16| h.cools(q, now);
    let take = |q: u16| h.buffer.packets.contains_key(q) && !cool(q);
    let f = firsts(seqs).filter(take);
    firsts(seqs).lemma_filter_pred(take, i);
    assert(f.map_values(|q: u16| h.buffer.packets[q])[i] == h.buffer.packets[f[i]]);
    assert(take(f[i]));
}

/// Whatever a handler was told before, as long as the reports come in the order of their times: a
/// report gets, for its distinct numbers in the order of their first occurrences, the kept packets
/// of those that no report got less than the cooldown ago. The requests that are turned down, and
/// nothing else, are counted: those that repeat a number of the report, and the distinct ones that
/// a report got less than the cooldown ago. What is kept stays.
pub proof fn reports_are_answered_after_the_cooldown(
    h: SenderNackView,
    events: Seq<NackEvent>,
    seqs: Seq<u16>,
    now: u64,
)
    requires
        h.wf(),
        h.recent == Map::<u16, u64>::empty(),
        in_order(events),
        last_report(events) <= now,
    ensures
        ({
            let b = ran(h, events);
            let cool = |q: u16|
                last_granted(h, events, q) matches Some(t) && now - t < NACK_RESEND_COOLDOWN;
            &&& b.resend_end(seqs, now).out == granted(seqs, b.buffer.packets, cool)
            &&& b.requested(seqs, now).retransmit_suppressed_count == (
            b.retransmit_suppressed_count + turned_down(seqs, cool)) % 0x1_0000_0000_0000_0000
            &&& b.requested(seqs, now).buffer == b.buffer
        }),
{
    let b = ran(h, events);
    recent_is_what_was_granted(h, events);
    reports_are_answered_once_per_number(b, seqs, now);
    let cool = |q: u16|
        last_granted(h, events, q) matches Some(t) && now - t < NACK_RESEND_COOLDOWN;
    assert forall|q: u16| #[trigger] b.cools(q, now) == cool(q) by {
        assert(remembers(h, events, q));
    }
    assert((|q: u16| b.cools(q, now)) =~= cool);
}

proof fn merge_bound(pending: Seq<u16>, lost: Seq<u16>, k: int)
    requires
        0 <= k <= lost.len(),
        pending.no_duplicates(),
    ensures
        merged_from(pending, lost, k).no_duplicates(),
        merged_from(pending, lost, k).len() <= pending.len() + lost.len() - k,
    decreases lost.len() - k,
{
    if k < lost.len() {
        if pending.contains(lost[k]) {
            merge_bound(pending, lost, k + 1);
        } else {
            assert(pending.push(lost[k]).no_duplicates());
            merge_bound(pending.push(lost[k]), lost, k + 1);
        }
    }
}

/// The receiver never waits for more than twice the cap of a request, and for no number twice.
pub proof fn pending_stays_bounded(v: ReceiverNackView, seq: u16, ssrc: u32)
    requires
        v.pending.no_duplicates(),
        v.pending.len() <= 2 * MAX_RECEIVER_NACK_GAP,
    ensures
        v.after(seq, ssrc).pending.no_duplicates(),
        v.after(seq, ssrc).pending.len() <= 2 * MAX_RECEIVER_NACK_GAP,
{
    if v.leaves_gap(seq, ssrc) {
        merge_bound(v.pending, missing(v.last_seq, seq), 0);
    } else if v.pending.contains(seq) {
        v.pending.index_of_first_ensures(seq);
        let i = v.pending.index_of_first(seq)->0;
        assert(v.pending.remove(i).no_duplicates());
    }
}

/// A request names at most the cap; it ends right before the packet that was received, and every
/// number in it lies after the newest packet before that one.
pub proof fn request_names_the_newest_gap(last: u16, seq: u16)
    requires
        1 < distance(last, seq) < 32768,
    ensures
        0 < missing(last, seq).len() <= MAX_RECEIVER_NACK_GAP,
        missing(last, seq).len() == distance(last, seq) - 1 || missing(last, seq).len()
            == MAX_RECEIVER_NACK_GAP,
        forall|i: int|
            0 <= i < missing(last, seq).len() ==> distance(
                #[trigger] missing(last, seq)[i],
                seq,
            ) == missing(last, seq).len() - i,
        forall|i: int|
            0 <= i < missing(last, seq).len() ==> 0 < distance(
                last,
                #[trigger] missing(last, seq)[i],
            ) < distance(last, seq),
{
}

/// A packet that fills a requested hole is counted as recovered and no longer waited for.
pub proof fn recovery_is_counted_once(v: ReceiverNackView, seq: u16, ssrc: u32)
    requires
        v.continues(ssrc),
        v.pending.no_duplicates(),
        v.pending.contains(seq),
    ensures
        v.after(seq, ssrc).nack_recovered_count == v.nack_recovered_count.wrapping_add(1),
        !v.after(seq, ssrc).pending.contains(seq),
        v.after(seq, ssrc).last_seq == v.last_seq,
{
    v.pending.index_of_first_ensures(seq);
    let i = v.pending.index_of_first(seq)->0;
    let rest = v.pending.remove(i);
    if rest.contains(seq) {
        let j = rest.index_of(seq);
        if j < i {
            assert(v.pending[j] == seq);
        } else {
            assert(v.pending[j + 1] == seq);
        }
    }
}

/// An old packet that was never requested changes nothing.
pub proof fn stale_packets_are_ignored(v: ReceiverNackView, seq: u16, ssrc: u32)
    requires
        v.continues(ssrc),
        !v.pending.contains(seq),
        distance(v.last_seq, seq) >= 32768,
    ensures
        v.after(seq, ssrc) == v,
{
}

/// A packet that is stored is found under its number, as it is, in a store that may hold one.
pub proof fn sent_packet_is_kept(b: BufferView, p: PacketView, max: nat)
    requires
        b.wf(),
        max > 0,
    ensures
        b.pushed(p, max).packets.contains_key(p.header.sequence_number),
        b.pushed(p, max).packets[p.header.sequence_number] == p,
{
    let s = p.header.sequence_number;
    if !b.packets.contains_key(s) {
        let order = b.pushed(p, max).order;
        assert(order[order.len() - 1] == s);
        assert(order.contains(s));
    }
}

/// The packets that a store holds are those that came last: whatever leaves came before whatever
/// stays.
pub proof fn oldest_packets_leave(b: BufferView, p: PacketView, max: nat)
    requires
        b.wf(),
        !b.packets.contains_key(p.header.sequence_number),
    ensures
        ({
            let all = b.order.push(p.header.sequence_number);
            let after = b.pushed(p, max);
            &&& after.order.len() == (if all.len() <= max {
                all.len()
            } else {
                max
            })
            &&& forall|i: int|
                0 <= i < after.order.len() ==> #[trigger] after.order[i] == all[all.len()
                    - after.order.len() + i]
            &&& forall|s: u16|
                s != p.header.sequence_number && after.packets.contains_key(s)
                    ==> #[trigger] after.packets[s] == b.packets[s]
        }),
{
}

/// What goes out in answer to a report is the kept packets themselves, or, where there is a
/// retransmission stream, one packet of that for each, numbered on from the last answer; each
/// carries the number and the payload of the packet that it repeats.
pub proof fn answers_repeat_kept_packets(h: SenderNackView, seqs: Seq<u16>, now: u64, i: int)
    requires
        0 <= i < h.resend_end(seqs, now).out.len(),
    ensures
        ({
            let p = h.resend_end(seqs, now).out[i];
            let q = h.answer(seqs, now)[i];
            &&& h.answer(seqs, now).len() == h.resend_end(seqs, now).out.len()
            &&& h.rtx_config is None ==> q == p && h.answered(seqs, now).rtx_seq == h.rtx_seq
            &&& h.rtx_config matches Some(c) ==> {
                &&& q.header.ssrc == c.rtx_ssrc
                &&& q.header.payload_type == c.rtx_payload_type
                &&& q.header.sequence_number == (h.rtx_seq + i) % 0x1_0000
                &&& q.header.timestamp == p.header.timestamp
                &&& q.payload.len() == p.payload.len() + 2
                &&& q.payload[0] as int * 256 + q.payload[1] as int == p.header.sequence_number
                &&& q.payload.skip(2) == p.payload
                &&& h.answered(seqs, now).rtx_seq == (h.rtx_seq + h.answer(seqs, now).len())
                    % 0x1_0000
            }
            &&& h.answered(seqs, now).nack_recv_count == h.nack_recv_count.wrapping_add(
                seqs.len() as u64,
            )
            &&& h.answered(seqs, now).buffer == h.buffer
        }),
{
    let p = h.resend_end(seqs, now).out[i];
    if let Some(c) = h.rtx_config {
        crate::rtx::retransmissions_carry_the_original(
            p,
            c,
            ((h.rtx_seq + i) % 0x1_0000) as u16,
        );
    }
}

/// A number cools down for twenty-five milliseconds, also where the clock went back.
pub proof fn cooldown_lasts_as_long_as_said(now: u64, last: u64)
    ensures
        now >= last ==> (cooling(now, last) <==> now - last < 25_000_000),
        now < last ==> cooling(now, last),
{
}

/// The first packet of a stream is where it is counted from; the packet after the newest one, or
/// any newer one, is the newest from then on. One that leaves a gap has the numbers between asked
/// for and waited for, at most the newest 128 of them, and counted; packets of another stream start
/// anew.
pub proof fn gaps_are_noticed(v: ReceiverNackView, seq: u16, ssrc: u32, j: int)
    ensures
        !v.initialized && v.last_ssrc == 0 ==> ({
            let n = v.after(seq, ssrc);
            n.initialized && n.last_seq == seq && n.last_ssrc == ssrc && n.pending == v.pending
                && n.nack_sent_count == v.nack_sent_count
        }),
        v.last_ssrc != 0 && v.last_ssrc != ssrc ==> ({
            let n = v.after(seq, ssrc);
            n.last_seq == seq && n.last_ssrc == ssrc && n.pending.len() == 0 && n.nack_sent_count
                == v.nack_sent_count
        }) && !v.leaves_gap(seq, ssrc),
        v.continues(ssrc) && !v.pending.contains(seq) && distance(v.last_seq, seq) == 1
            ==> !v.leaves_gap(seq, ssrc) && v.after(seq, ssrc).last_seq == seq && v.after(
            seq,
            ssrc,
        ).pending == v.pending,
        v.continues(ssrc) && !v.pending.contains(seq) && 1 < distance(v.last_seq, seq) < 0x8000
            ==> v.leaves_gap(seq, ssrc) && v.after(seq, ssrc).last_seq == seq && v.after(
            seq,
            ssrc,
        ).nack_sent_count == v.nack_sent_count.wrapping_add(
            missing(v.last_seq, seq).len() as u64,
        ) && (missing(v.last_seq, seq).len() == distance(v.last_seq, seq) - 1 || missing(
            v.last_seq,
            seq,
        ).len() == 128) && missing(v.last_seq, seq).len() <= 128,
        v.leaves_gap(seq, ssrc) && v.pending.len() <= 128 && 0 <= j < missing(
            v.last_seq,
            seq,
        ).len() ==> v.after(seq, ssrc).pending.contains(missing(v.last_seq, seq)[j]),
{
    if v.leaves_gap(seq, ssrc) && v.pending.len() <= 128 {
        let lost = missing(v.last_seq, seq);
        merging_takes_all(v.pending, lost, 0, j);
    }
}

proof fn merging_takes_all(pending: Seq<u16>, lost: Seq<u16>, k: int, j: int)
    requires
        0 <= k <= lost.len(),
        0 <= j < lost.len() ==> k <= j || pending.contains(lost[j]),
    ensures
        0 <= j < lost.len() ==> merged_from(pending, lost, k).contains(lost[j]),
        merged_from(pending, lost, k).len() <= pending.len() + lost.len() - k,
    decreases lost.len() - k,
{
    if k < lost.len() {
        let next = if pending.contains(lost[k]) {
            pending
        } else {
            pending.push(lost[k])
        };
        if 0 <= j < lost.len() {
            if k < j {
            } else if k == j {
                if !pending.contains(lost[k]) {
                    assert(next[pending.len() as int] == lost[k]);
                }
            } else {
                let i = pending.index_of(lost[j]);
                assert(next[i] == lost[j]);
            }
        }
        merging_takes_all(next, lost, k + 1, j);
    }
}

/// The times of the last answers are kept; only where they outnumber the kept packets twice over
/// do those leave whose cooldown has passed.
pub proof fn running_cooldowns_are_kept(h: SenderNackView, seqs: Seq<u16>, now: u64, q: u16)
    ensures
        ({
            let r = h.resend_end(seqs, now).recent;
            let k = h.recent_after(seqs, now);
            &&& k.contains_key(q) ==> r.contains_key(q) && k[q] == r[q]
            &&& r.contains_key(q) && cooling(now, r[q]) ==> k.contains_key(q)
            &&& r.dom().len() <= 2 * h.max_size ==> k == r
            &&& r.dom().len() > 2 * h.max_size && k.contains_key(q) ==> cooling(now, k[q])
        }),
{
}

/// A packet on the retransmission stream is not kept; any other one is.
pub proof fn retransmissions_are_not_kept(h: SenderNackView, p: PacketView, c: RtxSenderConfig)
    requires
        h.wf(),
    ensures
        h.rtx_config == Some(c) && c.rtx_ssrc != 0 && p.header.ssrc == c.rtx_ssrc ==> h.sent(
            p,
        ).buffer == h.buffer,
        h.rtx_config is None || h.rtx_config->0.rtx_ssrc != p.header.ssrc ==> h.sent(
            p,
        ).buffer.packets.contains_key(p.header.sequence_number),
        h.sent(p).recent == h.recent && h.sent(p).rtx_seq == h.rtx_seq && h.sent(p).rtx_config
            == h.rtx_config,
{
    sent_packet_is_kept(h.buffer, p, h.max_size);
}

} // verus!

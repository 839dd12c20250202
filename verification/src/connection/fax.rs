//! Fax over a connection (T.38).

use super::ConnectionView;
use super::PeerConnection;
use crate::address::unspecified_address;
use crate::address::resolved;
use crate::address::HostTable;
use crate::address::IpAddress;
use crate::address::SocketAddress;
use crate::error::RtcError;
use crate::error::RtcErrorView;
use crate::error::RtcResult;
use crate::matching::kind_is;
use crate::sdp::find_section_of_kind;
use crate::sdp::of_kind;
use crate::sdp::DescriptionView;
use crate::sdp::MediaKind;
use crate::sdp::SessionDescription;
use crate::search::first;
use crate::search::first_from;
use crate::text::has_prefix;
use crate::text::starts_with;
use crate::text::text_opt;
use vstd::prelude::*;

verus! {

/// How fax starts.
#[derive(Clone, Copy, PartialEq, Eq, Structural, Debug)]
pub struct FaxPlan {
    /// The place of the transceiver.
    pub index: usize,
    /// The transceiver.
    pub transceiver: u64,
    /// Where fax is sent.
    pub remote: SocketAddress,
    /// The transport that the transceiver has already.
    pub existing: Option<u64>,
    /// Where a new socket is bound, where ICE has none.
    pub bind: SocketAddress,
}

/// How a side repairs lost fax packets.
#[derive(Clone, Copy, PartialEq, Eq, Structural, Debug)]
pub enum T38UdpEC {
    T38UDPRedundancy,
    T38UDPFEC,
}

/// What a side says of its fax transport in an image section.
#[derive(Clone, Copy, PartialEq, Eq, Structural, Debug)]
pub struct FaxCapability {
    pub udp_ec: T38UdpEC,
    /// The octets that it can keep.
    pub max_buffer: u32,
    /// The octets that one of its datagrams may have.
    pub max_datagram: u32,
}

/// The settings of a fax transport.
#[derive(Clone, Copy, PartialEq, Eq, Structural, Debug)]
pub struct UdptlSettings {
    /// How many earlier packets are sent again with each packet.
    pub redundancy_depth: u32,
    /// How many packets a parity packet covers, 0 for none.
    pub fec_group: u32,
    pub max_buffer: u32,
    pub max_datagram: u32,
}

/// The settings towards a side with the given capabilities: the first one gives the limits, and
/// whichever way it repairs losses, two packets are repeated and none is covered by parity. Without
/// a capability the usual settings hold.
pub open spec fn settings_for(c: Seq<FaxCapability>, usual: UdptlSettings) -> UdptlSettings {
    if c.len() == 0 {
        usual
    } else {
        UdptlSettings {
            redundancy_depth: 2,
            fec_group: 0,
            max_buffer: c[0].max_buffer,
            max_datagram: c[0].max_datagram,
        }
    }
}

/// The settings of a fax transport towards a side with the given capabilities.
pub fn udptl_settings(capabilities: &Vec<FaxCapability>, usual: UdptlSettings) -> (r: UdptlSettings)
    ensures
        r == settings_for(capabilities@, usual),
{
    if capabilities.len() == 0 {
        return usual;
    }
    let first = capabilities[0];
    let redundancy_depth: u32 = match first.udp_ec {
        T38UdpEC::T38UDPRedundancy => 2,
        T38UdpEC::T38UDPFEC => 2,
    };
    UdptlSettings {
        redundancy_depth,
        fec_group: 0,
        max_buffer: first.max_buffer,
        max_datagram: first.max_datagram,
    }
}

/// The host of a connection line that is nothing but `IN IP4 <host>` or `IN IP6 <host>`.
pub open spec fn plain_host(line: Seq<char>) -> Option<Seq<char>> {
    if starts_with(line, "IN IP4 "@) || starts_with(line, "IN IP6 "@) {
        Some(line.skip(7))
    } else {
        None
    }
}

/// The address of a connection line with a port.
pub open spec fn plain_address(
    line: Option<Seq<char>>,
    port: u16,
    hosts: Seq<(Seq<char>, IpAddress)>,
) -> Option<SocketAddress> {
    match line {
        Some(l) => match plain_host(l) {
            Some(h) => match resolved(hosts, h) {
                Some(ip) => Some(SocketAddress { ip, port }),
                None => None,
            },
            None => None,
        },
        None => None,
    }
}

/// The address at which the remote side takes fax.
pub open spec fn fax_address(d: DescriptionView, hosts: Seq<(Seq<char>, IpAddress)>) -> Option<
    SocketAddress,
> {
    match first(d.media, of_kind(MediaKind::Image)) {
        Some(i) => plain_address(
            match d.media[i].connection {
                Some(l) => Some(l),
                None => d.session.connection,
            },
            d.media[i].port,
            hosts,
        ),
        None => None,
    }
}

/// The address that our own description gives for fax, where its port is one.
pub open spec fn fax_bind(d: Option<DescriptionView>, hosts: Seq<(Seq<char>, IpAddress)>) -> Option<
    SocketAddress,
> {
    match d {
        Some(d) => match first(d.media, of_kind(MediaKind::Image)) {
            Some(i) => if d.media[i].port != 0 && d.media[i].port != 9 {
                plain_address(d.media[i].connection, d.media[i].port, hosts)
            } else {
                None
            },
            None => None,
        },
        None => None,
    }
}

impl ConnectionView {
    /// How fax starts.
    pub open spec fn fax_plan(self, hosts: Seq<(Seq<char>, IpAddress)>) -> Result<
        FaxPlan,
        RtcErrorView,
    > {
        match first(self.ts, kind_is(MediaKind::Image)) {
            None => Err(RtcErrorView::InvalidState("no Image transceiver for T.38 fax"@)),
            Some(i) => if !(self.remote matches Some(d) && first(
                d.media,
                of_kind(MediaKind::Image),
            ) is Some) {
                Err(RtcErrorView::InvalidState("no m=image in remote SDP"@))
            } else {
                match fax_address(self.remote->0, hosts) {
                    None => Err(
                        RtcErrorView::InvalidState("no usable address in remote m=image"@),
                    ),
                    Some(remote) => Ok(
                        FaxPlan {
                            index: i as usize,
                            transceiver: self.ts[i].id,
                            remote,
                            existing: self.ts[i].udtl,
                            bind: match fax_bind(self.local, hosts) {
                                Some(a) => a,
                                None => SocketAddress {
                                    ip: IpAddress { v6: false, bits: 0 },
                                    port: 0,
                                },
                            },
                        },
                    ),
                }
            },
        }
    }
}

/// The model of how a fax plan ends.
pub open spec fn fax_result(r: RtcResult<FaxPlan>) -> Result<FaxPlan, RtcErrorView> {
    match r {
        Ok(p) => Ok(p),
        Err(e) => Err(e@),
    }
}

fn parse_connection(line: &Option<String>, port: u16, hosts: &HostTable) -> (r: Option<
    SocketAddress,
>)
    ensures
        r == plain_address(text_opt(*line), port, hosts@),
{
    proof {
        reveal_strlit("IN IP4 ");
        reveal_strlit("IN IP6 ");
    }
    match line {
        Some(l) => {
            if !has_prefix(l.as_str(), "IN IP4 ") && !has_prefix(l.as_str(), "IN IP6 ") {
                return None;
            }
            let n: usize = l.as_str().unicode_len();
            let host = l.as_str().substring_char(7, n);
            assert(host@ =~= l@.skip(7));
            match hosts.resolve(host) {
                Some(ip) => Some(SocketAddress { ip, port }),
                None => None,
            }
        },
        None => None,
    }
}

fn find_fax_bind(d: &Option<SessionDescription>, hosts: &HostTable) -> (r: Option<SocketAddress>)
    ensures
        r == fax_bind(crate::sdp::description_opt(*d), hosts@),
{
    match d {
        Some(d) => match find_section_of_kind(&d.media_sections, MediaKind::Image) {
            Some(i) => {
                let s = &d.media_sections[i];
                assert(d@.media[i as int] == s@);
                if s.port != 0 && s.port != 9 {
                    parse_connection(&s.connection, s.port, hosts)
                } else {
                    None
                }
            },
            None => None,
        },
        None => None,
    }
}

impl PeerConnection {
    /// Plans the start of fax on the image transceiver, once both descriptions are set.
    pub fn init_t38_fax(&self, hosts: &HostTable) -> (r: RtcResult<FaxPlan>)
        ensures
            fax_result(r) == self@.fax_plan(hosts@),
            r matches Ok(p) ==> p.index < self@.ts.len(),
    {
        let ghost t = self@.ts;
        let mut i: usize = 0;
        while i < self.transceivers.len() && self.transceivers[i].kind() != MediaKind::Image
            invariant
                i <= self.transceivers@.len(),
                t == self@.ts,
                t == crate::transceiver::transceivers(self.transceivers@),
                first(t, kind_is(MediaKind::Image)) == first_from(
                    t,
                    kind_is(MediaKind::Image),
                    i as int,
                ),
            decreases self.transceivers@.len() - i,
        {
            assert(t[i as int] == self.transceivers@[i as int]@);
            i += 1;
        }
        if i >= self.transceivers.len() {
            return Err(RtcError::invalid_state("no Image transceiver for T.38 fax"));
        }
        assert(t[i as int] == self.transceivers@[i as int]@);
        let desc = match &self.remote_description {
            Some(d) => d,
            None => {
                return Err(RtcError::invalid_state("no m=image in remote SDP"));
            },
        };
        let k: usize = match find_section_of_kind(&desc.media_sections, MediaKind::Image) {
            Some(k) => k,
            None => {
                return Err(RtcError::invalid_state("no m=image in remote SDP"));
            },
        };
        let s = &desc.media_sections[k];
        assert(desc@.media[k as int] == s@);
        let found = if s.connection.is_some() {
            parse_connection(&s.connection, s.port, hosts)
        } else {
            parse_connection(&desc.session.connection, s.port, hosts)
        };
        let remote = match found {
            Some(a) => a,
            None => {
                return Err(RtcError::invalid_state("no usable address in remote m=image"));
            },
        };
        Ok(
            FaxPlan {
                index: i,
                transceiver: self.transceivers[i].id(),
                remote,
                existing: self.transceivers[i].udtl_transport(),
                bind: match find_fax_bind(&self.local_description, hosts) {
                    Some(a) => a,
                    None => unspecified_address(),
                },
            },
        )
    }
}

/// Fax needs an image transceiver, a remote image section and an address in it; it is sent to the
/// address of the first such section, from the address of our own, where that is a real one.
pub proof fn fax_goes_to_the_image_section(
    v: ConnectionView,
    hosts: Seq<(Seq<char>, IpAddress)>,
    d: DescriptionView,
    i: int,
    j: int,
)
    requires
        v.ts.len() <= usize::MAX,
        v.remote == Some(d),
        0 <= i < v.ts.len(),
        v.ts[i].kind == MediaKind::Image,
        forall|x: int| 0 <= x < i ==> (#[trigger] v.ts[x]).kind != MediaKind::Image,
        0 <= j < d.media.len(),
        d.media[j].kind == MediaKind::Image,
        forall|x: int| 0 <= x < j ==> (#[trigger] d.media[x]).kind != MediaKind::Image,
    ensures
        v.fax_plan(hosts) matches Ok(p) ==> p.index == i && p.transceiver == v.ts[i].id
            && p.existing == v.ts[i].udtl && p.remote.port == d.media[j].port,
        v.fax_plan(hosts) is Ok <==> fax_address(d, hosts) is Some,
        v.local is None ==> (v.fax_plan(hosts) matches Ok(p) ==> p.bind.port == 0),
        (ConnectionView { remote: None, ..v }).fax_plan(hosts) is Err,
        (ConnectionView { ts: v.ts.take(i), ..v }).fax_plan(hosts) is Err,
{
    crate::search::first_from_facts(v.ts, kind_is(MediaKind::Image), 0);
    crate::search::first_from_facts(d.media, of_kind(MediaKind::Image), 0);
    assert(kind_is(MediaKind::Image)(v.ts[i]));
    assert(of_kind(MediaKind::Image)(d.media[j]));
    let a = first(v.ts, kind_is(MediaKind::Image))->0;
    let b = first(d.media, of_kind(MediaKind::Image))->0;
    assert(kind_is(MediaKind::Image)(v.ts[a]));
    assert(of_kind(MediaKind::Image)(d.media[b]));
    assert(a == i && b == j);
    let t = v.ts.take(i);
    crate::search::first_from_facts(t, kind_is(MediaKind::Image), 0);
    if let Some(x) = first(t, kind_is(MediaKind::Image)) {
        assert(kind_is(MediaKind::Image)(t[x]));
    }
}

/// The first capability of the other side gives the limits, and two packets are repeated with each;
/// without one the usual settings hold.
pub proof fn fax_limits_are_those_of_the_other_side(
    first: FaxCapability,
    more: Seq<FaxCapability>,
    usual: UdptlSettings,
)
    ensures
        ({
            let s = settings_for(seq![first] + more, usual);
            &&& s.max_buffer == first.max_buffer
            &&& s.max_datagram == first.max_datagram
            &&& s.redundancy_depth == 2
            &&& s.fec_group == 0
        }),
        settings_for(Seq::empty(), usual) == usual,
{
}

/// Fax is sent to the host of the connection line of the remote image section, and to that of the
/// session only where the section has none; the port is that of the section. A line of its own that
/// names no known host leaves no address.
pub proof fn fax_line_of_the_section_decides(
    d: DescriptionView,
    hosts: Seq<(Seq<char>, IpAddress)>,
    j: int,
    line: Seq<char>,
    host: Seq<char>,
    ip: IpAddress,
)
    requires
        0 <= j < d.media.len(),
        d.media[j].kind == MediaKind::Image,
        forall|x: int| 0 <= x < j ==> (#[trigger] d.media[x]).kind != MediaKind::Image,
        line == "IN IP4 "@ + host || line == "IN IP6 "@ + host,
        d.media[j].connection == Some(line) || (d.media[j].connection is None
            && d.session.connection == Some(line)),
    ensures
        crate::address::says(hosts, host, ip) ==> fax_address(d, hosts) == Some(
            SocketAddress { ip, port: d.media[j].port },
        ),
        (forall|x: int| 0 <= x < hosts.len() ==> (#[trigger] hosts[x]).0 != host) ==> fax_address(
            d,
            hosts,
        ) is None,
{
    crate::search::first_from_facts(d.media, of_kind(MediaKind::Image), 0);
    assert(of_kind(MediaKind::Image)(d.media[j]));
    let b = first(d.media, of_kind(MediaKind::Image))->0;
    assert(of_kind(MediaKind::Image)(d.media[b]));
    assert(b == j);
    reveal_strlit("IN IP4 ");
    reveal_strlit("IN IP6 ");
    assert(line.take(7) =~= "IN IP4 "@ || line.take(7) =~= "IN IP6 "@);
    assert(line.skip(7) =~= host);
    crate::address::said_hosts_are_found(hosts, host, ip);
}

/// Our own socket for fax is bound to the address of our image section, but for a port of none, 0
/// or 9.
pub proof fn fax_is_bound_where_we_said(
    d: DescriptionView,
    hosts: Seq<(Seq<char>, IpAddress)>,
    j: int,
    host: Seq<char>,
    ip: IpAddress,
)
    requires
        0 <= j < d.media.len(),
        d.media[j].kind == MediaKind::Image,
        forall|x: int| 0 <= x < j ==> (#[trigger] d.media[x]).kind != MediaKind::Image,
    ensures
        crate::address::says(hosts, host, ip) && d.media[j].connection == Some("IN IP4 "@ + host)
            && d.media[j].port != 0 && d.media[j].port != 9 ==> fax_bind(Some(d), hosts) == Some(
            SocketAddress { ip, port: d.media[j].port },
        ),
        d.media[j].port == 0 || d.media[j].port == 9 || d.media[j].connection is None ==> fax_bind(
            Some(d),
            hosts,
        ) is None,
        fax_bind(None, hosts) is None,
{
    crate::search::first_from_facts(d.media, of_kind(MediaKind::Image), 0);
    assert(of_kind(MediaKind::Image)(d.media[j]));
    let b = first(d.media, of_kind(MediaKind::Image))->0;
    assert(of_kind(MediaKind::Image)(d.media[b]));
    assert(b == j);
    reveal_strlit("IN IP4 ");
    let line = "IN IP4 "@ + host;
    assert(line.take(7) =~= "IN IP4 "@);
    assert(line.skip(7) =~= host);
    crate::address::said_hosts_are_found(hosts, host, ip);
}

} // verus!

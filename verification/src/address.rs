//! Transport addresses and what descriptions say of them.

use crate::sdp::attrs;
use crate::sdp::find_key;
use crate::sdp::find_section_with_mid;
use crate::sdp::has_key;
use crate::sdp::keyed;
use crate::sdp::with_mid;
use crate::sdp::AttributeView;
use crate::sdp::Attribute;
use crate::sdp::DescriptionView;
use crate::sdp::MediaSection;
use crate::sdp::SectionView;
use crate::sdp::SessionDescription;
use crate::search::first;
use crate::search::first_from;
use crate::search::first_iff_any;
use crate::text::has_prefix;
use crate::text::number;
use crate::text::parse_u16;
use crate::text::same_text;
use crate::text::split_words;
use crate::text::starts_with;
use crate::text::text_opt;
use crate::text::texts;
use crate::text::words;
use vstd::prelude::*;

verus! {

/// An IP address: its version and its bits.
#[derive(Clone, Copy, PartialEq, Eq, Structural, Debug)]
pub struct IpAddress {
    pub v6: bool,
    pub bits: u128,
}

/// An IP address and a port.
#[derive(Clone, Copy, PartialEq, Eq, Structural, Debug)]
pub struct SocketAddress {
    pub ip: IpAddress,
    pub port: u16,
}

/// The unspecified IPv4 address with port 0.
pub fn unspecified_address() -> (r: SocketAddress)
    ensures
        r == (SocketAddress { ip: IpAddress { v6: false, bits: 0 }, port: 0 }),
{
    SocketAddress { ip: IpAddress { v6: false, bits: 0 }, port: 0 }
}

/// The host texts that are IP addresses, and the addresses that they are.
#[derive(Debug)]
pub struct HostTable {
    pub entries: Vec<(String, IpAddress)>,
}

impl View for HostTable {
    type V = Seq<(Seq<char>, IpAddress)>;

    open spec fn view(&self) -> Seq<(Seq<char>, IpAddress)> {
        self.entries@.map_values(|e: (String, IpAddress)| (e.0@, e.1))
    }
}

/// Entries for a host.
pub open spec fn for_host(host: Seq<char>) -> spec_fn((Seq<char>, IpAddress)) -> bool {
    |e: (Seq<char>, IpAddress)| e.0 == host
}

/// The address that a host text is.
pub open spec fn resolved(t: Seq<(Seq<char>, IpAddress)>, host: Seq<char>) -> Option<IpAddress> {
    match first(t, for_host(host)) {
        Some(i) => Some(t[i].1),
        None => None,
    }
}

impl HostTable {
    /// A table without hosts.
    pub fn new() -> (r: Self)
        ensures
            r@ == Seq::<(Seq<char>, IpAddress)>::empty(),
    {
        let r = HostTable { entries: Vec::new() };
        assert(r@ =~= Seq::<(Seq<char>, IpAddress)>::empty());
        r
    }

    /// Adds a host.
    pub fn add(&mut self, host: String, ip: IpAddress)
        ensures
            final(self)@ == old(self)@.push((host@, ip)),
    {
        let ghost before = self@;
        self.entries.push((host, ip));
        assert(self@ =~= before.push((host@, ip)));
    }

    /// The address that a host text is.
    pub fn resolve(&self, host: &str) -> (r: Option<IpAddress>)
        ensures
            r == resolved(self@, host@),
    {
        let ghost t = self@;
        let mut i: usize = 0;
        while i < self.entries.len()
            invariant
                i <= self.entries@.len(),
                t == self@,
                first(t, for_host(host@)) == first_from(t, for_host(host@), i as int),
            decreases self.entries@.len() - i,
        {
            assert(t[i as int] == (self.entries@[i as int].0@, self.entries@[i as int].1));
            if same_text(self.entries[i].0.as_str(), host) {
                return Some(self.entries[i].1);
            }
            i += 1;
        }
        None
    }
}

/// The host of a connection line: `IN IP4 <host>`, or also `IN IP6 <host>` where `v6` holds.
pub open spec fn connection_host(conn: Seq<char>, v6: bool) -> Option<Seq<char>> {
    let w = words(conn);
    if w.len() >= 3 && w[0] == "IN"@ && (w[1] == "IP4"@ || (v6 && w[1] == "IP6"@)) {
        Some(w[2])
    } else {
        None
    }
}

/// The connection line that holds for a section: its own, else that of the session.
pub open spec fn connection_of(d: DescriptionView, s: SectionView) -> Option<Seq<char>> {
    match s.connection {
        Some(c) => Some(c),
        None => d.session.connection,
    }
}

/// The address that a section is to be sent to.
pub open spec fn section_address(
    d: DescriptionView,
    s: SectionView,
    hosts: Seq<(Seq<char>, IpAddress)>,
    v6: bool,
) -> Option<SocketAddress> {
    match connection_of(d, s) {
        Some(c) => match connection_host(c, v6) {
            Some(h) => match resolved(hosts, h) {
                Some(ip) => Some(SocketAddress { ip, port: s.port }),
                None => None,
            },
            None => None,
        },
        None => None,
    }
}

/// The host of a connection line.
pub fn host_of_connection(conn: &str, v6: bool) -> (r: Option<String>)
    ensures
        text_opt(r) == connection_host(conn@, v6),
{
    let w = split_words(conn);
    assert(texts(w@).len() == w@.len());
    if w.len() < 3 {
        return None;
    }
    assert(texts(w@)[0] == w@[0]@ && texts(w@)[1] == w@[1]@ && texts(w@)[2] == w@[2]@);
    if same_text(w[0].as_str(), "IN") && (same_text(w[1].as_str(), "IP4") || (v6 && same_text(
        w[1].as_str(),
        "IP6",
    ))) {
        Some(w[2].clone())
    } else {
        None
    }
}

/// The address that a section is to be sent to; IPv6 connection lines count where `v6` holds.
pub fn remote_rtp_addr_from_section(
    desc: &SessionDescription,
    section: &MediaSection,
    hosts: &HostTable,
    v6: bool,
) -> (r: Option<SocketAddress>)
    ensures
        r == section_address(desc@, section@, hosts@, v6),
{
    let conn = match &section.connection {
        Some(c) => c,
        None => match &desc.session.connection {
            Some(c) => c,
            None => {
                return None;
            },
        },
    };
    match host_of_connection(conn.as_str(), v6) {
        Some(h) => match hosts.resolve(h.as_str()) {
            Some(ip) => Some(SocketAddress { ip, port: section.port }),
            None => None,
        },
        None => None,
    }
}

/// `a=rtcp:<port> [IN IP4 <host>]`; without a host the address is that of RTP.
pub open spec fn rtcp_attribute(
    a: AttributeView,
    fallback: IpAddress,
    hosts: Seq<(Seq<char>, IpAddress)>,
) -> Option<SocketAddress> {
    match a.value {
        Some(v) => {
            let w = words(v);
            if w.len() == 0 || number(w[0], 65535) is None {
                None
            } else {
                let port = number(w[0], 65535)->0 as u16;
                if w.len() >= 4 && w[1] == "IN"@ && (w[2] == "IP4"@ || w[2] == "IP6"@) {
                    match resolved(hosts, w[3]) {
                        Some(ip) => Some(SocketAddress { ip, port }),
                        None => None,
                    }
                } else {
                    Some(SocketAddress { ip: fallback, port })
                }
            }
        },
        None => None,
    }
}

/// Reads an `a=rtcp` line.
pub fn parse_rtcp_attribute(attribute: &Attribute, fallback: IpAddress, hosts: &HostTable) -> (r:
    Option<SocketAddress>)
    ensures
        r == rtcp_attribute(attribute@, fallback, hosts@),
{
    let v = match &attribute.value {
        Some(v) => v,
        None => {
            return None;
        },
    };
    let w = split_words(v.as_str());
    assert(texts(w@).len() == w@.len());
    if w.len() == 0 {
        return None;
    }
    assert(texts(w@)[0] == w@[0]@);
    let port: u16 = match parse_u16(w[0].as_str()) {
        Some(p) => p,
        None => {
            return None;
        },
    };
    if w.len() >= 4 {
        assert(texts(w@)[1] == w@[1]@ && texts(w@)[2] == w@[2]@ && texts(w@)[3] == w@[3]@);
        if same_text(w[1].as_str(), "IN") && (same_text(w[2].as_str(), "IP4") || same_text(
            w[2].as_str(),
            "IP6",
        )) {
            return match hosts.resolve(w[3].as_str()) {
                Some(ip) => Some(SocketAddress { ip, port }),
                None => None,
            };
        }
    }
    Some(SocketAddress { ip: fallback, port })
}

/// Where the RTCP of a section goes apart from its RTP: nowhere if they share a port, else to the
/// address that the section names, else to the next port.
pub open spec fn section_rtcp(
    s: SectionView,
    rtp: SocketAddress,
    hosts: Seq<(Seq<char>, IpAddress)>,
) -> Option<SocketAddress> {
    if has_key(s.attributes, "rtcp-mux"@) {
        None
    } else {
        let named = match first(s.attributes, keyed("rtcp"@)) {
            Some(i) => rtcp_attribute(s.attributes[i], rtp.ip, hosts),
            None => None,
        };
        match named {
            Some(a) => Some(a),
            None => if rtp.port == 65535 {
                None
            } else {
                Some(SocketAddress { ip: rtp.ip, port: (rtp.port + 1) as u16 })
            },
        }
    }
}

/// Where the RTCP of a section goes apart from its RTP.
pub fn remote_rtcp_addr_from_media_section(
    section: &MediaSection,
    rtp: SocketAddress,
    hosts: &HostTable,
) -> (r: Option<SocketAddress>)
    ensures
        r == section_rtcp(section@, rtp, hosts@),
{
    if section.has("rtcp-mux") {
        return None;
    }
    if let Some(i) = find_key(&section.attributes, "rtcp") {
        assert(section@.attributes[i as int] == section.attributes@[i as int]@);
        let named = parse_rtcp_attribute(&section.attributes[i], rtp.ip, hosts);
        if named.is_some() {
            return named;
        }
    }
    if rtp.port == 65535 {
        None
    } else {
        Some(SocketAddress { ip: rtp.ip, port: rtp.port + 1 })
    }
}

/// Lines that open a BUNDLE group.
pub open spec fn bundle_group() -> spec_fn(AttributeView) -> bool {
    |a: AttributeView| a.key == "group"@ && (a.value matches Some(v) && starts_with(v, "BUNDLE"@))
}

/// The description has a BUNDLE group.
pub open spec fn has_bundle(d: DescriptionView) -> bool {
    crate::search::any(d.session.attributes, bundle_group())
}

/// Whether a description has a BUNDLE group.
pub fn sdp_has_bundle(desc: &SessionDescription) -> (r: bool)
    ensures
        r == has_bundle(desc@),
{
    let v = &desc.session.attributes;
    let ghost a = desc@.session.attributes;
    let mut i: usize = 0;
    while i < v.len()
        invariant
            i <= v@.len(),
            a == attrs(v@),
            a == desc@.session.attributes,
            forall|j: int| 0 <= j < i ==> !bundle_group()(#[trigger] a[j]),
        decreases v@.len() - i,
    {
        assert(a[i as int] == v@[i as int]@);
        if same_text(v[i].key.as_str(), "group") {
            if let Some(value) = &v[i].value {
                if has_prefix(value.as_str(), "BUNDLE") {
                    assert(bundle_group()(a[i as int]));
                    return true;
                }
            }
        }
        i += 1;
    }
    false
}

/// The mid that stands first in the BUNDLE group.
pub open spec fn bundle_tag(d: DescriptionView) -> Option<Seq<char>> {
    match first(d.session.attributes, keyed("group"@)) {
        Some(i) => match d.session.attributes[i].value {
            Some(v) => if words(v).len() >= 2 && words(v)[0] == "BUNDLE"@ {
                Some(words(v)[1])
            } else {
                None
            },
            None => None,
        },
        None => None,
    }
}

/// The mid that stands first in the BUNDLE group.
pub fn bundle_tag_mid(desc: &SessionDescription) -> (r: Option<String>)
    ensures
        text_opt(r) == bundle_tag(desc@),
{
    let i: usize = match find_key(&desc.session.attributes, "group") {
        Some(i) => i,
        None => {
            return None;
        },
    };
    assert(desc@.session.attributes[i as int] == desc.session.attributes@[i as int]@);
    match &desc.session.attributes[i].value {
        Some(v) => {
            let w = split_words(v.as_str());
            assert(texts(w@).len() == w@.len());
            if w.len() < 2 {
                return None;
            }
            assert(texts(w@)[0] == w@[0]@ && texts(w@)[1] == w@[1]@);
            if same_text(w[0].as_str(), "BUNDLE") {
                Some(w[1].clone())
            } else {
                None
            }
        },
        None => None,
    }
}

/// The section that speaks for the transport: the one that the BUNDLE group names first, else the
/// first.
pub open spec fn transport_section(d: DescriptionView) -> Option<int> {
    let tagged = match bundle_tag(d) {
        Some(mid) => first(d.media, with_mid(mid)),
        None => None,
    };
    match tagged {
        Some(i) => Some(i),
        None => if d.media.len() > 0 {
            Some(0)
        } else {
            None
        },
    }
}

/// Where RTCP goes apart from RTP.
pub open spec fn description_rtcp(
    d: DescriptionView,
    rtp: SocketAddress,
    hosts: Seq<(Seq<char>, IpAddress)>,
) -> Option<SocketAddress> {
    match transport_section(d) {
        Some(i) => section_rtcp(d.media[i], rtp, hosts),
        None => None,
    }
}

/// Where RTCP goes apart from RTP.
pub fn remote_rtcp_addr_from_sdp(
    desc: &SessionDescription,
    rtp: SocketAddress,
    hosts: &HostTable,
) -> (r: Option<SocketAddress>)
    ensures
        r == description_rtcp(desc@, rtp, hosts@),
{
    let tagged: Option<usize> = match bundle_tag_mid(desc) {
        Some(mid) => find_section_with_mid(&desc.media_sections, mid.as_str()),
        None => None,
    };
    let index: usize = match tagged {
        Some(i) => i,
        None => {
            if desc.media_sections.len() == 0 {
                return None;
            }
            0
        },
    };
    assert(desc@.media[index as int] == desc.media_sections@[index as int]@);
    remote_rtcp_addr_from_media_section(&desc.media_sections[index], rtp, hosts)
}

/// RTCP shares the RTP port exactly as the section says, and otherwise never does on the port
/// that follows.
pub proof fn rtcp_is_apart_unless_muxed(
    s: SectionView,
    rtp: SocketAddress,
    hosts: Seq<(Seq<char>, IpAddress)>,
)
    requires
        rtp.port < 65535,
    ensures
        section_rtcp(s, rtp, hosts) is None <==> has_key(s.attributes, "rtcp-mux"@),
        !has_key(s.attributes, "rtcp-mux"@) && !has_key(s.attributes, "rtcp"@) ==> section_rtcp(
            s,
            rtp,
            hosts,
        ) == Some(SocketAddress { ip: rtp.ip, port: (rtp.port + 1) as u16 }),
{
    first_iff_any(s.attributes, keyed("rtcp"@));
}

/// `acc` with the third word of a line.
pub open spec fn with_word(v: Option<Seq<char>>, n: int, acc: Seq<Seq<char>>) -> Seq<Seq<char>> {
    match v {
        Some(c) => if words(c).len() > n {
            acc.push(words(c)[n])
        } else {
            acc
        },
        None => acc,
    }
}

fn push_word_of(v: &Option<String>, n: usize, out: &mut Vec<String>)
    ensures
        texts(final(out)@) == with_word(text_opt(*v), n as int, texts(old(out)@)),
{
    if let Some(c) = v {
        let w = split_words(c.as_str());
        assert(texts(w@).len() == w@.len());
        if w.len() > n {
            assert(texts(w@)[n as int] == w@[n as int]@);
            let ghost before = out@;
            let x = w[n].clone();
            out.push(x);
            assert(texts(out@) =~= texts(before).push(x@));
        }
    }
}

/// `acc` with the hosts of the rtcp lines from index `k` on.
pub open spec fn rtcp_hosts_from(a: Seq<AttributeView>, k: int, acc: Seq<Seq<char>>) -> Seq<
    Seq<char>,
>
    decreases a.len() - k,
{
    if k < 0 || k >= a.len() {
        acc
    } else if a[k].key == "rtcp"@ {
        rtcp_hosts_from(a, k + 1, with_word(a[k].value, 3, acc))
    } else {
        rtcp_hosts_from(a, k + 1, acc)
    }
}

/// `acc` with the hosts of the sections from index `k` on.
pub open spec fn section_hosts_from(m: Seq<SectionView>, k: int, acc: Seq<Seq<char>>) -> Seq<
    Seq<char>,
>
    decreases m.len() - k,
{
    if k < 0 || k >= m.len() {
        acc
    } else {
        section_hosts_from(
            m,
            k + 1,
            rtcp_hosts_from(m[k].attributes, 0, with_word(m[k].connection, 2, acc)),
        )
    }
}

/// The host texts of a description, to be looked up in advance.
pub open spec fn hosts_of(d: DescriptionView) -> Seq<Seq<char>> {
    section_hosts_from(d.media, 0, with_word(d.session.connection, 2, Seq::empty()))
}

/// The host texts of a description.
pub fn host_texts(desc: &SessionDescription) -> (r: Vec<String>)
    ensures
        texts(r@) == hosts_of(desc@),
{
    let mut out: Vec<String> = Vec::new();
    assert(texts(out@) =~= Seq::<Seq<char>>::empty());
    push_word_of(&desc.session.connection, 2, &mut out);
    let mut i: usize = 0;
    while i < desc.media_sections.len()
        invariant
            i <= desc.media_sections@.len(),
            hosts_of(desc@) == section_hosts_from(desc@.media, i as int, texts(out@)),
        decreases desc.media_sections@.len() - i,
    {
        let s = &desc.media_sections[i];
        assert(desc@.media[i as int] == s@);
        push_word_of(&s.connection, 2, &mut out);
        let ghost start = texts(out@);
        let mut j: usize = 0;
        while j < s.attributes.len()
            invariant
                j <= s.attributes@.len(),
                rtcp_hosts_from(s@.attributes, 0, start) == rtcp_hosts_from(
                    s@.attributes,
                    j as int,
                    texts(out@),
                ),
            decreases s.attributes@.len() - j,
        {
            assert(s@.attributes[j as int] == s.attributes@[j as int]@);
            if same_text(s.attributes[j].key.as_str(), "rtcp") {
                push_word_of(&s.attributes[j].value, 3, &mut out);
            }
            j += 1;
        }
        i += 1;
    }
    out
}

/// A table says of a host that it is an address: it has an entry that says so, and no other.
pub open spec fn says(t: Seq<(Seq<char>, IpAddress)>, host: Seq<char>, ip: IpAddress) -> bool {
    &&& exists|i: int| 0 <= i < t.len() && #[trigger] t[i] == (host, ip)
    &&& forall|i: int| 0 <= i < t.len() && (#[trigger] t[i]).0 == host ==> t[i].1 == ip
}

/// What a table says of a host is found, and a host that no entry names is not.
pub proof fn said_hosts_are_found(t: Seq<(Seq<char>, IpAddress)>, host: Seq<char>, ip: IpAddress)
    ensures
        says(t, host, ip) ==> resolved(t, host) == Some(ip),
        (forall|i: int| 0 <= i < t.len() ==> (#[trigger] t[i]).0 != host) ==> resolved(
            t,
            host,
        ) is None,
{
    crate::search::first_from_facts(t, for_host(host), 0);
    if says(t, host, ip) {
        let i = choose|i: int| 0 <= i < t.len() && #[trigger] t[i] == (host, ip);
        assert(for_host(host)(t[i]));
    }
}

/// A line is `IN IP4 <host>` or, where `v6` holds, `IN IP6 <host>`, perhaps with more behind it.
pub open spec fn names_host(line: Seq<char>, v6: bool, host: Seq<char>) -> bool {
    let w = words(line);
    &&& w.len() >= 3
    &&& w[0] == "IN"@
    &&& w[1] == "IP4"@ || (v6 && w[1] == "IP6"@)
    &&& w[2] == host
}

/// Media goes where the connection line of its section says, to the port of the section, whatever
/// the session says.
pub proof fn own_connection_line_decides(
    d: DescriptionView,
    other: DescriptionView,
    s: SectionView,
    hosts: Seq<(Seq<char>, IpAddress)>,
    v6: bool,
    line: Seq<char>,
    host: Seq<char>,
    ip: IpAddress,
)
    requires
        s.connection == Some(line),
    ensures
        names_host(line, v6, host) && says(hosts, host, ip) ==> section_address(d, s, hosts, v6)
            == Some(SocketAddress { ip, port: s.port }),
        section_address(d, s, hosts, v6) == section_address(other, s, hosts, v6),
        (forall|h: Seq<char>| !names_host(line, v6, h)) ==> section_address(
            d,
            s,
            hosts,
            v6,
        ) is None,
{
    said_hosts_are_found(hosts, host, ip);
    if words(line).len() >= 3 {
        assert((forall|h: Seq<char>| !names_host(line, v6, h)) ==> !names_host(
            line,
            v6,
            words(line)[2],
        ));
    }
}

/// Media of a section without a connection line goes where that of the session says, to the port
/// of the section; without one there either, nowhere.
pub proof fn session_connection_line_is_the_fallback(
    d: DescriptionView,
    s: SectionView,
    hosts: Seq<(Seq<char>, IpAddress)>,
    v6: bool,
    line: Seq<char>,
    host: Seq<char>,
    ip: IpAddress,
)
    requires
        s.connection is None,
    ensures
        d.session.connection == Some(line) && names_host(line, v6, host) && says(hosts, host, ip)
            ==> section_address(d, s, hosts, v6) == Some(SocketAddress { ip, port: s.port }),
        d.session.connection is None ==> section_address(d, s, hosts, v6) is None,
{
    said_hosts_are_found(hosts, host, ip);
}

/// RTCP that a section sends apart from RTP goes to the port that its first rtcp line names: on the
/// host that the line names, else on the host of RTP.
pub proof fn rtcp_line_decides(
    s: SectionView,
    rtp: SocketAddress,
    hosts: Seq<(Seq<char>, IpAddress)>,
    k: int,
    line: Seq<char>,
    port: u16,
    ip: IpAddress,
)
    requires
        forall|i: int| 0 <= i < s.attributes.len() ==> (#[trigger] s.attributes[i]).key
            != "rtcp-mux"@,
        0 <= k < s.attributes.len(),
        s.attributes[k] == (AttributeView { key: "rtcp"@, value: Some(line) }),
        forall|i: int| 0 <= i < k ==> (#[trigger] s.attributes[i]).key != "rtcp"@,
        words(line).len() > 0,
        number(words(line)[0], 65535) == Some(port as nat),
    ensures
        words(line).len() < 4 ==> section_rtcp(s, rtp, hosts) == Some(
            SocketAddress { ip: rtp.ip, port },
        ),
        words(line).len() >= 4 && words(line)[1] == "IN"@ && (words(line)[2] == "IP4"@ || words(
            line,
        )[2] == "IP6"@) && says(hosts, words(line)[3], ip) ==> section_rtcp(s, rtp, hosts) == Some(
            SocketAddress { ip, port },
        ),
{
    let a = s.attributes;
    crate::search::first_from_facts(a, keyed("rtcp"@), 0);
    crate::search::first_iff_any(a, keyed("rtcp-mux"@));
    assert(keyed("rtcp"@)(a[k]));
    if words(line).len() >= 4 {
        said_hosts_are_found(hosts, words(line)[3], ip);
    }
}

/// The section that speaks for the transport of a description is the first one with the mid that
/// its group names first; without such a group, the first section.
pub proof fn transport_section_is_tagged(d: DescriptionView, k: int, line: Seq<char>)
    requires
        0 <= k < d.session.attributes.len(),
        d.session.attributes[k] == (AttributeView { key: "group"@, value: Some(line) }),
        forall|i: int| 0 <= i < k ==> (#[trigger] d.session.attributes[i]).key != "group"@,
        words(line).len() >= 2,
        words(line)[0] == "BUNDLE"@,
    ensures
        transport_section(d) matches Some(i) ==> 0 <= i < d.media.len() && (d.media[i].mid == words(
            line,
        )[1] || i == 0),
        (exists|i: int| 0 <= i < d.media.len() && (#[trigger] d.media[i]).mid == words(line)[1])
            ==> (transport_section(d) matches Some(i) && d.media[i].mid == words(line)[1]
            && forall|j: int| 0 <= j < i ==> (#[trigger] d.media[j]).mid != words(line)[1]),
{
    let a = d.session.attributes;
    crate::search::first_from_facts(a, keyed("group"@), 0);
    assert(keyed("group"@)(a[k]));
    crate::search::first_from_facts(d.media, with_mid(words(line)[1]), 0);
}

proof fn rtcp_hosts_are_listed(a: Seq<AttributeView>, k: int, acc: Seq<Seq<char>>, i: int, h: Seq<char>)
    requires
        0 <= k,
        acc.contains(h) || (k <= i < a.len() && a[i].key == "rtcp"@ && a[i].value is Some && words(
            a[i].value->0,
        ).len() > 3 && words(a[i].value->0)[3] == h),
    ensures
        rtcp_hosts_from(a, k, acc).contains(h),
    decreases a.len() - k,
{
    if k < a.len() {
        if a[k].key == "rtcp"@ {
            word_is_listed(a[k].value, 3, acc, h);
            rtcp_hosts_are_listed(a, k + 1, with_word(a[k].value, 3, acc), i, h);
        } else {
            rtcp_hosts_are_listed(a, k + 1, acc, i, h);
        }
    }
}

proof fn word_is_listed(v: Option<Seq<char>>, n: int, acc: Seq<Seq<char>>, h: Seq<char>)
    requires
        0 <= n,
    ensures
        acc.contains(h) ==> with_word(v, n, acc).contains(h),
        v is Some && words(v->0).len() > n && words(v->0)[n] == h ==> with_word(v, n, acc).contains(
            h,
        ),
{
    let r = with_word(v, n, acc);
    if acc.contains(h) {
        assert(r[acc.index_of(h)] == h);
    }
    if v is Some && words(v->0).len() > n && words(v->0)[n] == h {
        assert(r[acc.len() as int] == h);
    }
}

proof fn section_hosts_are_listed(
    m: Seq<SectionView>,
    k: int,
    acc: Seq<Seq<char>>,
    n: int,
    i: int,
    h: Seq<char>,
)
    requires
        0 <= k,
        acc.contains(h) || (k <= n < m.len() && ((m[n].connection is Some && words(
            m[n].connection->0,
        ).len() > 2 && words(m[n].connection->0)[2] == h) || (0 <= i < m[n].attributes.len()
            && m[n].attributes[i].key == "rtcp"@ && m[n].attributes[i].value is Some && words(
            m[n].attributes[i].value->0,
        ).len() > 3 && words(m[n].attributes[i].value->0)[3] == h))),
    ensures
        section_hosts_from(m, k, acc).contains(h),
    decreases m.len() - k,
{
    if k < m.len() {
        word_is_listed(m[k].connection, 2, acc, h);
        let a = with_word(m[k].connection, 2, acc);
        if a.contains(h) || k == n {
            rtcp_hosts_are_listed(m[k].attributes, 0, a, i, h);
        }
        section_hosts_are_listed(m, k + 1, rtcp_hosts_from(m[k].attributes, 0, a), n, i, h);
    }
}

/// Every host that an address of a description is read from is among the texts to look up: the
/// third word of the connection line of the session and of each section, and the fourth of each
/// rtcp line.
pub proof fn hosts_are_listed(d: DescriptionView, n: int, i: int, line: Seq<char>)
    ensures
        d.session.connection == Some(line) && words(line).len() > 2 ==> hosts_of(d).contains(
            words(line)[2],
        ),
        0 <= n < d.media.len() && d.media[n].connection == Some(line) && words(line).len() > 2
            ==> hosts_of(d).contains(words(line)[2]),
        0 <= n < d.media.len() && 0 <= i < d.media[n].attributes.len() && d.media[n].attributes[i]
            == (AttributeView { key: "rtcp"@, value: Some(line) }) && words(line).len() > 3
            ==> hosts_of(d).contains(words(line)[3]),
{
    let start = with_word(d.session.connection, 2, Seq::empty());
    if d.session.connection == Some(line) && words(line).len() > 2 {
        word_is_listed(d.session.connection, 2, Seq::empty(), words(line)[2]);
        section_hosts_are_listed(d.media, 0, start, -1, 0, words(line)[2]);
    }
    if 0 <= n < d.media.len() && d.media[n].connection == Some(line) && words(line).len() > 2 {
        section_hosts_are_listed(d.media, 0, start, n, 0, words(line)[2]);
    }
    if 0 <= n < d.media.len() && 0 <= i < d.media[n].attributes.len() && d.media[n].attributes[i]
        == (AttributeView { key: "rtcp"@, value: Some(line) }) && words(line).len() > 3 {
        section_hosts_are_listed(d.media, 0, start, n, i, words(line)[3]);
    }
}

/// A description groups its sections where the session has a group line that begins with `BUNDLE`,
/// and only there.
pub proof fn bundle_lines_make_a_group(d: DescriptionView, i: int)
    ensures
        0 <= i < d.session.attributes.len() && d.session.attributes[i].key == "group"@
            && d.session.attributes[i].value is Some && starts_with(
            d.session.attributes[i].value->0,
            "BUNDLE"@,
        ) ==> has_bundle(d),
        (forall|j: int|
            0 <= j < d.session.attributes.len() && (#[trigger] d.session.attributes[j]).key
                == "group"@ && d.session.attributes[j].value is Some ==> !starts_with(
                d.session.attributes[j].value->0,
                "BUNDLE"@,
            )) ==> !has_bundle(d),
{
    crate::search::first_from_facts(d.session.attributes, bundle_group(), 0);
    let a = d.session.attributes;
    if 0 <= i < a.len() && a[i].key == "group"@ && a[i].value is Some && starts_with(
        a[i].value->0,
        "BUNDLE"@,
    ) {
        assert(bundle_group()(a[i]));
    }
}

} // verus!

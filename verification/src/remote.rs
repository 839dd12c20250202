//! What a remote description says and changes.

use crate::action::actions;
use crate::action::push_action;
use crate::action::Action;
use crate::action::ActionView;
use crate::address::bundle_tag;
use crate::address::bundle_tag_mid;
use crate::address::has_bundle;
use crate::address::remote_rtcp_addr_from_media_section;
use crate::address::remote_rtp_addr_from_section;
use crate::address::sdp_has_bundle;
use crate::address::section_address;
use crate::address::section_rtcp;
use crate::address::HostTable;
use crate::address::IpAddress;
use crate::address::SocketAddress;
use crate::codec::leading_ssrc;
use crate::codec::remote_ssrc_from_section;
use crate::config::ConfigView;
use crate::config::RtcConfiguration;
use crate::config::TransportMode;
use crate::error::RtcError;
use crate::error::RtcErrorView;
use crate::error::RtcResult;
use crate::local::all_wf;
use crate::local::give_mid;
use crate::local::mid_step;
use crate::local::TsStep;
use crate::matching::find_by_kind;
use crate::matching::find_by_kind_and_mid;
use crate::matching::find_by_kind_without_mid;
use crate::matching::free;
use crate::matching::kind_and_mid;
use crate::matching::kind_is;
use crate::matching::kind_without_mid;
use crate::matching::matched;
use crate::matching::matched_rtp_media_sections;
use crate::matching::none_used;
use crate::matching::pairs;
use crate::matching::unused;
use crate::negotiate::answer_step;
use crate::negotiate::answer_transceiver;
use crate::negotiate::create_from_offer;
use crate::negotiate::created_step;
use crate::negotiate::offer_extensions;
use crate::negotiate::offer_step;
use crate::negotiate::offer_transceiver;
use crate::negotiate::reinvite_step;
use crate::negotiate::reinvite_transceiver;
use crate::negotiate::tell_offer_extensions;
use crate::negotiate::Step;
use crate::registry::find_transport;
use crate::registry::holds_id;
use crate::registry::transport_of;
use crate::sdp::has_key;
use crate::sdp::same_attrs;
use crate::sdp::same_sections;
use crate::sdp::AttributeView;
use crate::sdp::Attribute;
use crate::sdp::DescriptionView;
use crate::sdp::FingerprintLine;
use crate::sdp::FingerprintView;
use crate::sdp::fingerprint_line;
use crate::sdp::MediaSection;
use crate::sdp::SectionView;
use crate::sdp::SessionDescription;
use crate::search::first;
use crate::search::first_from;
use crate::stream::read_stream;
use crate::stream::stream_of;
use crate::text::clone_text_opt;
use crate::text::joined;
use crate::text::number;
use crate::text::parse_u16;
use crate::text::same_text;
use crate::text::same_text_opt;
use crate::text::text_opt;
use crate::text::texts;
use crate::transceiver::transceivers;
use crate::transceiver::RtpTransceiver;
use crate::transceiver::TransceiverView;
use vstd::prelude::*;

verus! {

/// The DTLS fingerprint that a remote description has to carry for WebRTC, or why it is refused.
pub open spec fn required_fingerprint(mode: TransportMode, d: DescriptionView) -> Result<
    Option<Seq<char>>,
    RtcErrorView,
> {
    if mode != TransportMode::WebRtc {
        Ok(None)
    } else {
        match fingerprint_line(d) {
            FingerprintView::Found { algorithm, value } => if algorithm == "sha-256"@ {
                Ok(Some(value))
            } else {
                Err(
                    RtcErrorView::InvalidConfiguration(
                        "unsupported DTLS fingerprint algorithm: "@ + algorithm,
                    ),
                )
            },
            FingerprintView::Missing => Err(
                RtcErrorView::InvalidConfiguration(
                    "remote SDP in WebRTC mode must contain a DTLS fingerprint"@,
                ),
            ),
            FingerprintView::Malformed(line) => Err(
                RtcErrorView::InvalidConfiguration(
                    "invalid DTLS fingerprint in remote SDP: "@ + line,
                ),
            ),
        }
    }
}

/// Takes the DTLS fingerprint of a remote description, or refuses the description.
pub fn check_fingerprint(mode: TransportMode, desc: &SessionDescription) -> (r: RtcResult<
    Option<String>,
>)
    ensures
        match r {
            Ok(f) => required_fingerprint(mode, desc@) == Ok::<_, RtcErrorView>(text_opt(f)),
            Err(e) => required_fingerprint(mode, desc@) == Err::<Option<Seq<char>>, _>(e@),
        },
{
    if mode != TransportMode::WebRtc {
        return Ok(None);
    }
    match desc.dtls_fingerprint() {
        FingerprintLine::Found { algorithm, value } => if same_text(
            algorithm.as_str(),
            "sha-256",
        ) {
            Ok(Some(value))
        } else {
            Err(
                RtcError::InvalidConfiguration(
                    joined("unsupported DTLS fingerprint algorithm: ", algorithm.as_str()),
                ),
            )
        },
        FingerprintLine::Missing => Err(
            RtcError::invalid_configuration(
                "remote SDP in WebRTC mode must contain a DTLS fingerprint",
            ),
        ),
        FingerprintLine::Malformed(line) => Err(
            RtcError::InvalidConfiguration(
                joined("invalid DTLS fingerprint in remote SDP: ", line.as_str()),
            ),
        ),
    }
}

/// Two descriptions differ in what concerns media.
pub open spec fn media_differs(a: DescriptionView, b: DescriptionView) -> bool {
    a.session.connection != b.session.connection || a.session.attributes != b.session.attributes
        || a.media != b.media
}

/// Whether two descriptions differ in what concerns media.
pub fn media_parameters_changed(a: &SessionDescription, b: &SessionDescription) -> (r: bool)
    ensures
        r == media_differs(a@, b@),
{
    !same_text_opt(&a.session.connection, &b.session.connection) || !same_attrs(
        &a.session.attributes,
        &b.session.attributes,
    ) || !same_sections(&a.media_sections, &b.media_sections)
}

/// What a re-offer, or its answer, changes at once in the transceivers of the pairs from index
/// `k` on.
pub open spec fn reinvited_from(
    st: TsStep,
    p: Seq<(int, int)>,
    m: Seq<SectionView>,
    k: int,
) -> TsStep
    decreases p.len() - k,
{
    if k < 0 || k >= p.len() {
        st
    } else {
        reinvited_from(st.with(p[k].0, reinvite_step(st.at(p[k].0), m[p[k].1])), p, m, k + 1)
    }
}

/// What a re-offer, or its answer, changes at once.
pub open spec fn reinvited(st: TsStep, m: Seq<SectionView>) -> TsStep {
    reinvited_from(st, matched(st.ts, m), m, 0)
}

/// Applies at once what a re-offer, or its answer, changes.
pub fn apply_reinvite(
    ts: &mut Vec<RtpTransceiver>,
    desc: &SessionDescription,
    list: &mut Vec<Action>,
)
    requires
        all_wf(transceivers(old(ts)@)),
    ensures
        (TsStep { ts: transceivers(final(ts)@), acts: actions(final(list)@) }) == reinvited(
            (TsStep { ts: transceivers(old(ts)@), acts: actions(old(list)@) }),
            desc@.media,
        ),
        all_wf(transceivers(final(ts)@)),
        final(ts)@.len() == old(ts)@.len(),
{
    let ghost start = TsStep { ts: transceivers(ts@), acts: actions(list@) };
    let found = matched_rtp_media_sections(ts, desc);
    let ghost p = pairs(found@);
    let ghost n = ts@.len();
    let mut k: usize = 0;
    while k < found.len()
        invariant
            k <= found@.len(),
            p == pairs(found@),
            ts@.len() == n,
            all_wf(transceivers(ts@)),
            forall|i: int|
                0 <= i < found@.len() ==> (#[trigger] found@[i]).0 < n && found@[i].1
                    < desc.media_sections@.len(),
            reinvited_from(start, p, desc@.media, 0) == reinvited_from(
                (TsStep { ts: transceivers(ts@), acts: actions(list@) }),
                p,
                desc@.media,
                k as int,
            ),
        decreases found@.len() - k,
    {
        let i: usize = found[k].0;
        let s = &desc.media_sections[found[k].1];
        assert(p[k as int] == (i as int, found@[k as int].1 as int));
        assert(desc@.media[found@[k as int].1 as int] == s@);
        let ghost st = TsStep { ts: transceivers(ts@), acts: actions(list@) };
        assert(st.ts[i as int] == ts@[i as int]@);
        reinvite_transceiver(&mut ts[i], s, list);
        assert(transceivers(ts@) =~= st.with(
            i as int,
            reinvite_step(st.at(i as int), s@),
        ).ts);
        k += 1;
    }
}

/// A direct transport follows at once the address of the first section of a re-offer.
pub open spec fn reinvite_address(
    acts: Seq<ActionView>,
    mode: TransportMode,
    d: DescriptionView,
    hosts: Seq<(Seq<char>, IpAddress)>,
    primary: Option<u64>,
) -> Seq<ActionView> {
    if mode == TransportMode::WebRtc || d.media.len() == 0 {
        acts
    } else {
        match section_address(d, d.media[0], hosts, false) {
            Some(address) => if mode == TransportMode::Rtp {
                acts.push(ActionView::CompleteDirect { address })
            } else {
                match primary {
                    Some(transport) => acts.push(
                        ActionView::SetRemoteAddress { transport, address },
                    ),
                    None => acts,
                }
            },
            None => acts,
        }
    }
}

/// Lets a direct transport follow the address of the first section of a re-offer.
pub fn follow_reinvite_address(
    mode: TransportMode,
    desc: &SessionDescription,
    hosts: &HostTable,
    primary: Option<u64>,
    list: &mut Vec<Action>,
)
    ensures
        actions(final(list)@) == reinvite_address(
            actions(old(list)@),
            mode,
            desc@,
            hosts@,
            primary,
        ),
{
    if mode == TransportMode::WebRtc || desc.media_sections.len() == 0 {
        return;
    }
    assert(desc@.media[0] == desc.media_sections@[0]@);
    if let Some(address) = remote_rtp_addr_from_section(
        desc,
        &desc.media_sections[0],
        hosts,
        false,
    ) {
        if mode == TransportMode::Rtp {
            push_action(list, Action::CompleteDirect { address });
        } else if let Some(transport) = primary {
            push_action(list, Action::SetRemoteAddress { transport, address });
        }
    }
}

/// The identifiers of the transceivers of the pairs.
pub open spec fn live_ids(ts: Seq<TransceiverView>, p: Seq<(int, int)>) -> Seq<u64> {
    Seq::new(p.len(), |i: int| ts[p[i].0].id)
}

/// `acc` with the identifiers of the transceivers from index `k` on that are not live.
pub open spec fn orphans_from(
    ts: Seq<TransceiverView>,
    live: Seq<u64>,
    k: int,
    acc: Seq<u64>,
) -> Seq<u64>
    decreases ts.len() - k,
{
    if k < 0 || k >= ts.len() {
        acc
    } else if live.contains(ts[k].id) {
        orphans_from(ts, live, k + 1, acc)
    } else {
        orphans_from(ts, live, k + 1, acc.push(ts[k].id))
    }
}

/// The identifiers of the transceivers that a description has no RTP section of.
pub open spec fn orphans(ts: Seq<TransceiverView>, m: Seq<SectionView>) -> Seq<u64> {
    orphans_from(ts, live_ids(ts, matched(ts, m)), 0, Seq::empty())
}

/// The transceivers that a description has no RTP section of.
pub fn orphaned_transceivers(ts: &Vec<RtpTransceiver>, desc: &SessionDescription) -> (r: Vec<u64>)
    ensures
        r@ == orphans(transceivers(ts@), desc@.media),
{
    let found = matched_rtp_media_sections(ts, desc);
    let ghost t = transceivers(ts@);
    let ghost p = pairs(found@);
    let mut live: Vec<u64> = Vec::new();
    let mut i: usize = 0;
    while i < found.len()
        invariant
            i <= found@.len(),
            t == transceivers(ts@),
            p == pairs(found@),
            forall|j: int| 0 <= j < found@.len() ==> (#[trigger] found@[j]).0 < ts@.len(),
            live@ == live_ids(t, p).take(i as int),
        decreases found@.len() - i,
    {
        assert(p[i as int].0 == found@[i as int].0);
        let id: u64 = ts[found[i].0].id();
        assert(live_ids(t, p)[i as int] == id);
        live.push(id);
        i += 1;
        assert(live_ids(t, p).take(i as int) =~= live_ids(t, p).take(i - 1).push(
            live_ids(t, p)[i - 1],
        ));
    }
    assert(live@ =~= live_ids(t, p));
    let mut out: Vec<u64> = Vec::new();
    let mut k: usize = 0;
    while k < ts.len()
        invariant
            k <= ts@.len(),
            t == transceivers(ts@),
            live@ == live_ids(t, p),
            orphans_from(t, live@, 0, Seq::empty()) == orphans_from(t, live@, k as int, out@),
        decreases ts@.len() - k,
    {
        assert(t[k as int] == ts@[k as int]@);
        let id: u64 = ts[k].id();
        if !holds_id(&live, id) {
            out.push(id);
        }
        k += 1;
    }
    out
}

/// The next mid once the mids of the sections from index `k` on are known. The highest number is
/// passed over.
pub open spec fn next_mid_from(m: Seq<SectionView>, k: int, next: u16) -> u16
    decreases m.len() - k,
{
    if k < 0 || k >= m.len() {
        next
    } else {
        match number(m[k].mid, 65535) {
            Some(n) => if n < 65535 && n + 1 > next {
                next_mid_from(m, k + 1, (n + 1) as u16)
            } else {
                next_mid_from(m, k + 1, next)
            },
            None => next_mid_from(m, k + 1, next),
        }
    }
}

/// Passes over the mids of a remote description.
pub fn next_mid_after(next: u16, desc: &SessionDescription) -> (r: u16)
    ensures
        r == next_mid_from(desc@.media, 0, next),
{
    let mut n: u16 = next;
    let mut k: usize = 0;
    while k < desc.media_sections.len()
        invariant
            k <= desc.media_sections@.len(),
            next_mid_from(desc@.media, 0, next) == next_mid_from(desc@.media, k as int, n),
        decreases desc.media_sections@.len() - k,
    {
        assert(desc@.media[k as int] == desc.media_sections@[k as int]@);
        if let Some(mid) = parse_u16(desc.media_sections[k].mid.as_str()) {
            if mid < 65535 && mid + 1 > n {
                n = mid + 1;
            }
        }
        k += 1;
    }
    n
}

proof fn next_mid_grows(m: Seq<SectionView>, k: int, next: u16)
    requires
        0 <= k,
    ensures
        next_mid_from(m, k, next) >= next,
        forall|i: int|
            k <= i < m.len() ==> (number((#[trigger] m[i]).mid, 65535) matches Some(n) ==> n
                < 65535 ==> next_mid_from(m, k, next) > n),
    decreases m.len() - k,
{
    if k < m.len() {
        let after = match number(m[k].mid, 65535) {
            Some(n) => if n < 65535 && n + 1 > next {
                (n + 1) as u16
            } else {
                next
            },
            None => next,
        };
        next_mid_grows(m, k + 1, after);
    }
}

/// The next mid that is allocated is none that the remote description uses, as long as that does
/// not use the highest number.
pub proof fn allocated_mid_is_fresh(m: Seq<SectionView>, next: u16, i: int)
    requires
        0 <= i < m.len(),
        m[i].mid != crate::text::decimal(65535),
    ensures
        crate::text::decimal(next_mid_from(m, 0, next) as nat) != m[i].mid,
        next_mid_from(m, 0, next) >= next,
{
    next_mid_grows(m, 0, next);
    let r = next_mid_from(m, 0, next);
    if crate::text::decimal(r as nat) == m[i].mid {
        crate::text::number_of_decimal(r as nat, 65535);
        if r < 65535 {
            assert(number(m[i].mid, 65535) == Some(r as nat));
        }
    }
}

/// The DTLS role that a setup value gives us: true for the client.
pub open spec fn role_of_setup(v: Seq<char>) -> bool {
    !(v == "active"@ || v == "actpass"@)
}

/// Setup lines with a value.
pub open spec fn is_setup() -> spec_fn(AttributeView) -> bool {
    |a: AttributeView| a.key == "setup"@ && a.value is Some
}

/// The role that the sections from index `k` on give us.
pub open spec fn role_from(m: Seq<SectionView>, k: int) -> Option<bool>
    decreases m.len() - k,
{
    if k < 0 || k >= m.len() {
        None
    } else {
        match first(m[k].attributes, is_setup()) {
            Some(i) => Some(role_of_setup(m[k].attributes[i].value->0)),
            None => role_from(m, k + 1),
        }
    }
}

/// Our role once a remote description is known: the one that was settled, on direct transports
/// the client, else as the description says.
pub open spec fn role_after(role: Option<bool>, direct: bool, m: Seq<SectionView>) -> Option<bool> {
    match role {
        Some(r) => Some(r),
        None => if direct {
            Some(true)
        } else {
            role_from(m, 0)
        },
    }
}

fn section_setup(s: &MediaSection) -> (r: Option<bool>)
    ensures
        r == (match first(s@.attributes, is_setup()) {
            Some(i) => Some(role_of_setup(s@.attributes[i].value->0)),
            None => None,
        }),
{
    let ghost a = s@.attributes;
    let mut i: usize = 0;
    while i < s.attributes.len()
        invariant
            i <= s.attributes@.len(),
            a == s@.attributes,
            first(a, is_setup()) == first_from(a, is_setup(), i as int),
        decreases s.attributes@.len() - i,
    {
        assert(a[i as int] == s.attributes@[i as int]@);
        if same_text(s.attributes[i].key.as_str(), "setup") {
            if let Some(v) = &s.attributes[i].value {
                return Some(
                    !(same_text(v.as_str(), "active") || same_text(v.as_str(), "actpass")),
                );
            }
        }
        i += 1;
    }
    None
}

/// Settles our DTLS role.
pub fn settle_role(role: Option<bool>, direct: bool, desc: &SessionDescription) -> (r: Option<bool>)
    ensures
        r == role_after(role, direct, desc@.media),
{
    if role.is_some() {
        return role;
    }
    if direct {
        return Some(true);
    }
    let mut k: usize = 0;
    while k < desc.media_sections.len()
        invariant
            k <= desc.media_sections@.len(),
            role is None,
            !direct,
            role_from(desc@.media, 0) == role_from(desc@.media, k as int),
        decreases desc.media_sections@.len() - k,
    {
        assert(desc@.media[k as int] == desc.media_sections@[k as int]@);
        let found = section_setup(&desc.media_sections[k]);
        if found.is_some() {
            return found;
        }
        k += 1;
    }
    None
}

/// The model of ICE credentials.
#[verifier::ext_equal]
pub struct CredentialsView {
    pub ufrag: Option<Seq<char>>,
    pub pwd: Option<Seq<char>>,
    pub candidates: Seq<Seq<char>>,
}

/// The ICE credentials and the candidate lines of a description.
#[derive(Debug)]
pub struct Credentials {
    pub ufrag: Option<String>,
    pub pwd: Option<String>,
    pub candidates: Vec<String>,
}

impl View for Credentials {
    type V = CredentialsView;

    open spec fn view(&self) -> CredentialsView {
        CredentialsView {
            ufrag: text_opt(self.ufrag),
            pwd: text_opt(self.pwd),
            candidates: texts(self.candidates@),
        }
    }
}

/// What one line adds to the credentials; candidates count in sections only.
pub open spec fn credential_step(
    a: AttributeView,
    c: CredentialsView,
    section: bool,
) -> CredentialsView {
    if a.key == "ice-ufrag"@ {
        CredentialsView { ufrag: a.value, ..c }
    } else if a.key == "ice-pwd"@ {
        CredentialsView { pwd: a.value, ..c }
    } else if section && a.key == "candidate"@ {
        match a.value {
            Some(v) => CredentialsView { candidates: c.candidates.push(v), ..c },
            None => c,
        }
    } else {
        c
    }
}

/// The credentials after the lines from index `k` on.
pub open spec fn credential_lines(
    a: Seq<AttributeView>,
    k: int,
    c: CredentialsView,
    section: bool,
) -> CredentialsView
    decreases a.len() - k,
{
    if k < 0 || k >= a.len() {
        c
    } else {
        credential_lines(a, k + 1, credential_step(a[k], c, section), section)
    }
}

/// The credentials after the sections from index `k` on.
pub open spec fn credential_sections(
    m: Seq<SectionView>,
    k: int,
    c: CredentialsView,
) -> CredentialsView
    decreases m.len() - k,
{
    if k < 0 || k >= m.len() {
        c
    } else {
        credential_sections(m, k + 1, credential_lines(m[k].attributes, 0, c, true))
    }
}

/// The credentials of a description: those of the session, overridden by those of the sections.
pub open spec fn credentials_of(d: DescriptionView) -> CredentialsView {
    credential_sections(
        d.media,
        0,
        credential_lines(
            d.session.attributes,
            0,
            CredentialsView { ufrag: None, pwd: None, candidates: Seq::empty() },
            false,
        ),
    )
}

fn credential_line(a: &Attribute, c: &mut Credentials, section: bool)
    ensures
        final(c)@ == credential_step(a@, old(c)@, section),
{
    let ghost before = c@;
    let key = a.key.as_str();
    if same_text(key, "ice-ufrag") {
        c.ufrag = clone_text_opt(&a.value);
    } else if same_text(key, "ice-pwd") {
        c.pwd = clone_text_opt(&a.value);
    } else if section && same_text(key, "candidate") {
        if let Some(v) = &a.value {
            let ghost l = c.candidates@;
            let x = v.clone();
            c.candidates.push(x);
            assert(texts(c.candidates@) =~= texts(l).push(x@));
        }
    }
    assert(c@ =~= credential_step(a@, before, section));
}

fn read_credential_lines(v: &Vec<Attribute>, c: &mut Credentials, section: bool)
    ensures
        final(c)@ == credential_lines(crate::sdp::attrs(v@), 0, old(c)@, section),
{
    let ghost a = crate::sdp::attrs(v@);
    let ghost start = c@;
    let mut i: usize = 0;
    while i < v.len()
        invariant
            i <= v@.len(),
            a == crate::sdp::attrs(v@),
            credential_lines(a, 0, start, section) == credential_lines(
                a,
                i as int,
                c@,
                section,
            ),
        decreases v@.len() - i,
    {
        assert(a[i as int] == v@[i as int]@);
        credential_line(&v[i], c, section);
        i += 1;
    }
}

/// Reads the ICE credentials and the candidate lines of a description.
pub fn read_credentials(desc: &SessionDescription) -> (r: Credentials)
    ensures
        r@ == credentials_of(desc@),
{
    let mut c = Credentials { ufrag: None, pwd: None, candidates: Vec::new() };
    assert(c@ =~= (CredentialsView { ufrag: None, pwd: None, candidates: Seq::empty() }));
    read_credential_lines(&desc.session.attributes, &mut c, false);
    let mut k: usize = 0;
    while k < desc.media_sections.len()
        invariant
            k <= desc.media_sections@.len(),
            credentials_of(desc@) == credential_sections(desc@.media, k as int, c@),
        decreases desc.media_sections@.len() - k,
    {
        assert(desc@.media[k as int] == desc.media_sections@[k as int]@);
        read_credential_lines(&desc.media_sections[k].attributes, &mut c, true);
        k += 1;
    }
    c
}

/// The address of the last section from index `k` on that has one, else `found`.
pub open spec fn direct_address_from(
    d: DescriptionView,
    hosts: Seq<(Seq<char>, IpAddress)>,
    k: int,
    found: Option<SocketAddress>,
) -> Option<SocketAddress>
    decreases d.media.len() - k,
{
    if k < 0 || k >= d.media.len() {
        found
    } else {
        match section_address(d, d.media[k], hosts, false) {
            Some(a) => direct_address_from(d, hosts, k + 1, Some(a)),
            None => direct_address_from(d, hosts, k + 1, found),
        }
    }
}

/// The address that a direct transport starts with: that of the last section that has one.
pub fn direct_address(desc: &SessionDescription, hosts: &HostTable) -> (r: Option<SocketAddress>)
    ensures
        r == direct_address_from(desc@, hosts@, 0, None),
{
    let mut found: Option<SocketAddress> = None;
    let mut k: usize = 0;
    while k < desc.media_sections.len()
        invariant
            k <= desc.media_sections@.len(),
            direct_address_from(desc@, hosts@, 0, None) == direct_address_from(
                desc@,
                hosts@,
                k as int,
                found,
            ),
        decreases desc.media_sections@.len() - k,
    {
        assert(desc@.media[k as int] == desc.media_sections@[k as int]@);
        let a = remote_rtp_addr_from_section(desc, &desc.media_sections[k], hosts, false);
        if a.is_some() {
            found = a;
        }
        k += 1;
    }
    found
}

/// The transceivers while an offer is applied.
#[verifier::ext_equal]
pub struct OfferState {
    pub ts: Seq<TransceiverView>,
    pub used: Seq<bool>,
    pub next_id: u64,
    pub acts: Seq<ActionView>,
}

/// The transceiver that an offered section is matched to, and whether it gets its mid from it: by
/// mid and kind, else the first of the kind without a mid, else, for a section without a mid, the
/// first of the kind.
pub open spec fn offer_owner(
    ts: Seq<TransceiverView>,
    used: Seq<bool>,
    s: SectionView,
) -> Option<(int, bool)> {
    let by_mid = if s.mid.len() > 0 {
        free(ts, used, kind_and_mid(s.kind, s.mid))
    } else {
        None
    };
    match by_mid {
        Some(i) => Some((i, false)),
        None => match free(ts, used, kind_without_mid(s.kind)) {
            Some(i) => Some((i, true)),
            None => if s.mid.len() == 0 {
                match free(ts, used, kind_is(s.kind)) {
                    Some(i) => Some((i, false)),
                    None => None,
                }
            } else {
                None
            },
        },
    }
}

/// What an offered section changes.
pub open spec fn offer_section_step(
    st: OfferState,
    s: SectionView,
    c: ConfigView,
    primary: Option<u64>,
) -> OfferState {
    let info = stream_of(s.attributes);
    match offer_owner(st.ts, st.used, s) {
        Some(o) => {
            let i = o.0;
            let a = if o.1 {
                mid_step(Step { t: st.ts[i], acts: st.acts }, s.mid)
            } else {
                Step { t: st.ts[i], acts: st.acts }
            };
            let b = offer_step(
                Step { t: a.t, acts: offer_extensions(a.acts, info, primary) },
                s,
                info,
                o.1,
            );
            OfferState {
                ts: st.ts.update(i, b.t),
                used: st.used.update(i, true),
                acts: b.acts,
                ..st
            }
        },
        None => {
            let b = created_step(
                st.next_id,
                s,
                info,
                c.nack_enabled(s.kind),
                if c.transport_mode == TransportMode::Rtp {
                    None
                } else {
                    primary
                },
                offer_extensions(st.acts, info, primary),
            );
            OfferState {
                ts: st.ts.push(b.t),
                used: st.used.push(true),
                next_id: st.next_id.wrapping_add(1),
                acts: b.acts,
            }
        },
    }
}

/// What the offered sections from index `k` on change.
pub open spec fn offered_from(
    st: OfferState,
    m: Seq<SectionView>,
    k: int,
    c: ConfigView,
    primary: Option<u64>,
) -> OfferState
    decreases m.len() - k,
{
    if k < 0 || k >= m.len() {
        st
    } else {
        offered_from(offer_section_step(st, m[k], c, primary), m, k + 1, c, primary)
    }
}

/// What an offer changes: each section is applied to the transceiver that it is matched to, or
/// creates one.
pub open spec fn offered(
    ts: Seq<TransceiverView>,
    next_id: u64,
    acts: Seq<ActionView>,
    m: Seq<SectionView>,
    c: ConfigView,
    primary: Option<u64>,
) -> OfferState {
    offered_from(
        OfferState { ts, used: none_used(ts.len()), next_id, acts },
        m,
        0,
        c,
        primary,
    )
}

fn find_offer_owner(ts: &Vec<RtpTransceiver>, used: &Vec<bool>, s: &MediaSection) -> (r: Option<(
    usize,
    bool,
)>)
    requires
        used@.len() == ts@.len(),
    ensures
        match r {
            Some(o) => o.0 < ts@.len() && offer_owner(transceivers(ts@), used@, s@) == Some(
                (o.0 as int, o.1),
            ),
            None => offer_owner(transceivers(ts@), used@, s@) is None,
        },
{
    let anonymous = s.mid.as_str().is_empty();
    if !anonymous {
        if let Some(i) = find_by_kind_and_mid(ts, used, s.kind, s.mid.as_str()) {
            return Some((i, false));
        }
    }
    if let Some(i) = find_by_kind_without_mid(ts, used, s.kind) {
        return Some((i, true));
    }
    if anonymous {
        if let Some(i) = find_by_kind(ts, used, s.kind) {
            return Some((i, false));
        }
    }
    None
}

fn offer_section(
    ts: &mut Vec<RtpTransceiver>,
    used: &mut Vec<bool>,
    next_id: &mut u64,
    s: &MediaSection,
    config: &RtcConfiguration,
    primary: Option<u64>,
    list: &mut Vec<Action>,
)
    requires
        old(used)@.len() == old(ts)@.len(),
        all_wf(transceivers(old(ts)@)),
    ensures
        final(used)@.len() == final(ts)@.len(),
        all_wf(transceivers(final(ts)@)),
        (OfferState {
            ts: transceivers(final(ts)@),
            used: final(used)@,
            next_id: *final(next_id),
            acts: actions(final(list)@),
        }) == offer_section_step(
            (OfferState {
                ts: transceivers(old(ts)@),
                used: old(used)@,
                next_id: *old(next_id),
                acts: actions(old(list)@),
            }),
            s@,
            config@,
            primary,
        ),
{
    let ghost st = OfferState {
        ts: transceivers(ts@),
        used: used@,
        next_id: *next_id,
        acts: actions(list@),
    };
    let info = read_stream(&s.attributes);
    match find_offer_owner(ts, used, s) {
        Some(o) => {
            let i: usize = o.0;
            assert(st.ts[i as int] == ts@[i as int]@);
            if o.1 {
                give_mid(&mut ts[i], s.mid.as_str(), list);
            }
            tell_offer_extensions(&info, primary, list);
            offer_transceiver(&mut ts[i], s, &info, o.1, list);
            used.set(i, true);
            assert(transceivers(ts@) =~= offer_section_step(st, s@, config@, primary).ts);
        },
        None => {
            tell_offer_extensions(&info, primary, list);
            let transport = if config.transport_mode == TransportMode::Rtp {
                None
            } else {
                primary
            };
            let t = create_from_offer(
                *next_id,
                s,
                &info,
                config.nack_enabled(s.kind),
                transport,
                list,
            );
            *next_id = next_id.wrapping_add(1);
            ts.push(t);
            used.push(true);
            assert(transceivers(ts@) =~= offer_section_step(st, s@, config@, primary).ts);
        },
    }
}

/// Applies a remote offer to the transceivers.
pub fn apply_remote_offer(
    ts: &mut Vec<RtpTransceiver>,
    next_id: &mut u64,
    desc: &SessionDescription,
    config: &RtcConfiguration,
    primary: Option<u64>,
    list: &mut Vec<Action>,
)
    requires
        all_wf(transceivers(old(ts)@)),
    ensures
        all_wf(transceivers(final(ts)@)),
        ({
            let r = offered(
                transceivers(old(ts)@),
                *old(next_id),
                actions(old(list)@),
                desc@.media,
                config@,
                primary,
            );
            &&& transceivers(final(ts)@) == r.ts
            &&& *final(next_id) == r.next_id
            &&& actions(final(list)@) == r.acts
        }),
{
    let mut used = unused(ts.len());
    let ghost start = OfferState {
        ts: transceivers(ts@),
        used: used@,
        next_id: *next_id,
        acts: actions(list@),
    };
    let mut k: usize = 0;
    while k < desc.media_sections.len()
        invariant
            k <= desc.media_sections@.len(),
            used@.len() == ts@.len(),
            all_wf(transceivers(ts@)),
            offered_from(start, desc@.media, 0, config@, primary) == offered_from(
                (OfferState {
                    ts: transceivers(ts@),
                    used: used@,
                    next_id: *next_id,
                    acts: actions(list@),
                }),
                desc@.media,
                k as int,
                config@,
                primary,
            ),
        decreases desc.media_sections@.len() - k,
    {
        assert(desc@.media[k as int] == desc.media_sections@[k as int]@);
        offer_section(ts, &mut used, next_id, &desc.media_sections[k], config, primary, list);
        k += 1;
    }
}

/// The transport of a transceiver: its own, else the primary one.
pub open spec fn transport_for(m: Seq<(u64, u64)>, primary: Option<u64>, id: u64) -> Option<u64> {
    match transport_of(m, id) {
        Some(t) => Some(t),
        None => primary,
    }
}

/// What an answer changes in the transceivers of the pairs from index `k` on.
pub open spec fn answered_from(
    st: TsStep,
    p: Seq<(int, int)>,
    m: Seq<SectionView>,
    media: Seq<(u64, u64)>,
    primary: Option<u64>,
    k: int,
) -> TsStep
    decreases p.len() - k,
{
    if k < 0 || k >= p.len() {
        st
    } else {
        let i = p[k].0;
        answered_from(
            st.with(
                i,
                answer_step(st.at(i), m[p[k].1], transport_for(media, primary, st.ts[i].id)),
            ),
            p,
            m,
            media,
            primary,
            k + 1,
        )
    }
}

/// What an answer changes.
pub open spec fn answered(
    st: TsStep,
    m: Seq<SectionView>,
    media: Seq<(u64, u64)>,
    primary: Option<u64>,
) -> TsStep {
    answered_from(st, matched(st.ts, m), m, media, primary, 0)
}

/// Applies a remote answer, final or provisional, to the transceivers.
pub fn apply_remote_answer(
    ts: &mut Vec<RtpTransceiver>,
    desc: &SessionDescription,
    media: &Vec<(u64, u64)>,
    primary: Option<u64>,
    list: &mut Vec<Action>,
)
    requires
        all_wf(transceivers(old(ts)@)),
    ensures
        all_wf(transceivers(final(ts)@)),
        (TsStep { ts: transceivers(final(ts)@), acts: actions(final(list)@) }) == answered(
            (TsStep { ts: transceivers(old(ts)@), acts: actions(old(list)@) }),
            desc@.media,
            media@,
            primary,
        ),
{
    let ghost start = TsStep { ts: transceivers(ts@), acts: actions(list@) };
    let found = matched_rtp_media_sections(ts, desc);
    let ghost p = pairs(found@);
    let ghost n = ts@.len();
    let mut k: usize = 0;
    while k < found.len()
        invariant
            k <= found@.len(),
            p == pairs(found@),
            ts@.len() == n,
            all_wf(transceivers(ts@)),
            forall|i: int|
                0 <= i < found@.len() ==> (#[trigger] found@[i]).0 < n && found@[i].1
                    < desc.media_sections@.len(),
            answered_from(start, p, desc@.media, media@, primary, 0) == answered_from(
                (TsStep { ts: transceivers(ts@), acts: actions(list@) }),
                p,
                desc@.media,
                media@,
                primary,
                k as int,
            ),
        decreases found@.len() - k,
    {
        let i: usize = found[k].0;
        let s = &desc.media_sections[found[k].1];
        assert(p[k as int] == (i as int, found@[k as int].1 as int));
        assert(desc@.media[found@[k as int].1 as int] == s@);
        let ghost st = TsStep { ts: transceivers(ts@), acts: actions(list@) };
        assert(st.ts[i as int] == ts@[i as int]@);
        let own = find_transport(media, ts[i].id());
        let transport = if own.is_some() {
            own
        } else {
            primary
        };
        answer_transceiver(&mut ts[i], s, transport, list);
        assert(transceivers(ts@) =~= st.with(
            i as int,
            answer_step(
                st.at(i as int),
                s@,
                transport_for(media@, primary, st.ts[i as int].id),
            ),
        ).ts);
        k += 1;
    }
}

/// How the direct transport of a transceiver is to be set up.
#[derive(Clone, Copy, Debug)]
pub struct MediaSetup {
    pub transceiver: u64,
    /// On the primary socket, or on one of its own.
    pub primary: bool,
    pub remote: SocketAddress,
    /// A socket of its own is needed for RTCP.
    pub needs_rtcp_socket: bool,
    /// Where RTCP goes apart from RTP.
    pub rtcp: Option<SocketAddress>,
    /// The SSRC to latch onto.
    pub expected_ssrc: Option<u32>,
}

/// How the direct transport of a transceiver is to be set up for a section.
pub open spec fn setup_of(
    d: DescriptionView,
    s: SectionView,
    hosts: Seq<(Seq<char>, IpAddress)>,
    transceiver: u64,
    primary: bool,
) -> Option<MediaSetup> {
    match section_address(d, s, hosts, true) {
        Some(remote) => Some(
            MediaSetup {
                transceiver,
                primary,
                remote,
                needs_rtcp_socket: !has_key(s.attributes, "rtcp-mux"@),
                rtcp: section_rtcp(s, remote, hosts),
                expected_ssrc: leading_ssrc(s),
            },
        ),
        None => None,
    }
}

fn plan_setup(
    desc: &SessionDescription,
    s: &MediaSection,
    hosts: &HostTable,
    transceiver: u64,
    primary: bool,
) -> (r: Option<MediaSetup>)
    ensures
        r == setup_of(desc@, s@, hosts@, transceiver, primary),
{
    match remote_rtp_addr_from_section(desc, s, hosts, true) {
        Some(remote) => Some(
            MediaSetup {
                transceiver,
                primary,
                remote,
                needs_rtcp_socket: !s.has("rtcp-mux"),
                rtcp: remote_rtcp_addr_from_media_section(s, remote, hosts),
                expected_ssrc: remote_ssrc_from_section(s),
            },
        ),
        None => None,
    }
}

/// The direct transports that a remote description asks for.
#[derive(Debug)]
pub struct TransportPlan {
    /// All media shares the primary transport: the transports of single transceivers go.
    pub bundled: bool,
    pub setups: Vec<MediaSetup>,
    /// The transceivers that are attached to the primary transport.
    pub shared: Vec<u64>,
}

/// The model of a transport plan.
#[verifier::ext_equal]
pub struct PlanView {
    pub bundled: bool,
    pub setups: Seq<MediaSetup>,
    pub shared: Seq<u64>,
}

impl View for TransportPlan {
    type V = PlanView;

    open spec fn view(&self) -> PlanView {
        PlanView { bundled: self.bundled, setups: self.setups@, shared: self.shared@ }
    }
}

/// Pairs whose section has a mid.
pub open spec fn section_mid_is(m: Seq<SectionView>, mid: Seq<char>) -> spec_fn((int, int)) -> bool {
    |p: (int, int)| m[p.1].mid == mid
}

/// The pair that speaks for a BUNDLE group: that of its first mid, else the first.
pub open spec fn bundle_pair(d: DescriptionView, p: Seq<(int, int)>) -> int {
    match bundle_tag(d) {
        Some(mid) => match first(p, section_mid_is(d.media, mid)) {
            Some(i) => i,
            None => 0,
        },
        None => 0,
    }
}

/// `acc` with the setups of the pairs from index `k` on, the first of all on the primary socket.
pub open spec fn setups_from(
    d: DescriptionView,
    ts: Seq<TransceiverView>,
    p: Seq<(int, int)>,
    hosts: Seq<(Seq<char>, IpAddress)>,
    k: int,
    acc: Seq<MediaSetup>,
) -> Seq<MediaSetup>
    decreases p.len() - k,
{
    if k < 0 || k >= p.len() {
        acc
    } else {
        match setup_of(d, d.media[p[k].1], hosts, ts[p[k].0].id, k == 0) {
            Some(x) => setups_from(d, ts, p, hosts, k + 1, acc.push(x)),
            None => setups_from(d, ts, p, hosts, k + 1, acc),
        }
    }
}

/// The direct transports that a remote description asks for: one for all media of a BUNDLE group,
/// else one for each section.
pub open spec fn transport_plan(
    ts: Seq<TransceiverView>,
    d: DescriptionView,
    hosts: Seq<(Seq<char>, IpAddress)>,
) -> PlanView {
    let p = matched(ts, d.media);
    if p.len() == 0 {
        PlanView { bundled: false, setups: Seq::empty(), shared: Seq::empty() }
    } else if has_bundle(d) {
        let q = p[bundle_pair(d, p)];
        PlanView {
            bundled: true,
            setups: match setup_of(d, d.media[q.1], hosts, ts[q.0].id, true) {
                Some(x) => seq![x],
                None => Seq::empty(),
            },
            shared: live_ids(ts, p),
        }
    } else {
        PlanView {
            bundled: false,
            setups: setups_from(d, ts, p, hosts, 0, Seq::empty()),
            shared: Seq::empty(),
        }
    }
}

fn find_bundle_pair(desc: &SessionDescription, found: &Vec<(usize, usize)>) -> (r: usize)
    requires
        found@.len() > 0,
        forall|i: int|
            0 <= i < found@.len() ==> (#[trigger] found@[i]).1 < desc.media_sections@.len(),
    ensures
        r < found@.len(),
        r == bundle_pair(desc@, pairs(found@)),
{
    let ghost p = pairs(found@);
    let ghost m = desc@.media;
    let mid = match bundle_tag_mid(desc) {
        Some(mid) => mid,
        None => {
            return 0;
        },
    };
    let mut i: usize = 0;
    while i < found.len()
        invariant
            i <= found@.len(),
            found@.len() > 0,
            p == pairs(found@),
            m == desc@.media,
            bundle_tag(desc@) == Some(mid@),
            forall|i: int|
                0 <= i < found@.len() ==> (#[trigger] found@[i]).1 < desc.media_sections@.len(),
            first(p, section_mid_is(m, mid@)) == first_from(
                p,
                section_mid_is(m, mid@),
                i as int,
            ),
        decreases found@.len() - i,
    {
        assert(p[i as int] == (found@[i as int].0 as int, found@[i as int].1 as int));
        let s = &desc.media_sections[found[i].1];
        assert(m[found@[i as int].1 as int] == s@);
        if same_text(s.mid.as_str(), mid.as_str()) {
            return i;
        }
        i += 1;
    }
    0
}

/// Plans the direct transports that a remote description asks for.
pub fn plan_media_transports(
    ts: &Vec<RtpTransceiver>,
    desc: &SessionDescription,
    hosts: &HostTable,
) -> (r: TransportPlan)
    ensures
        r@ == transport_plan(transceivers(ts@), desc@, hosts@),
{
    let ghost t = transceivers(ts@);
    let found = matched_rtp_media_sections(ts, desc);
    let ghost p = pairs(found@);
    let mut setups: Vec<MediaSetup> = Vec::new();
    let mut shared: Vec<u64> = Vec::new();
    if found.len() == 0 {
        let r = TransportPlan { bundled: false, setups, shared };
        assert(r@ =~= transport_plan(t, desc@, hosts@));
        return r;
    }
    if sdp_has_bundle(desc) {
        let j: usize = find_bundle_pair(desc, &found);
        assert(p[j as int] == (found@[j as int].0 as int, found@[j as int].1 as int));
        let s = &desc.media_sections[found[j].1];
        assert(desc@.media[found@[j as int].1 as int] == s@);
        assert(t[found@[j as int].0 as int] == ts@[found@[j as int].0 as int]@);
        if let Some(x) = plan_setup(desc, s, hosts, ts[found[j].0].id(), true) {
            setups.push(x);
        }
        let mut i: usize = 0;
        while i < found.len()
            invariant
                i <= found@.len(),
                t == transceivers(ts@),
                p == pairs(found@),
                forall|j: int| 0 <= j < found@.len() ==> (#[trigger] found@[j]).0 < ts@.len(),
                shared@ == live_ids(t, p).take(i as int),
            decreases found@.len() - i,
        {
            assert(p[i as int].0 == found@[i as int].0);
            let id: u64 = ts[found[i].0].id();
            assert(live_ids(t, p)[i as int] == id);
            shared.push(id);
            i += 1;
            assert(live_ids(t, p).take(i as int) =~= live_ids(t, p).take(i - 1).push(
                live_ids(t, p)[i - 1],
            ));
        }
        assert(shared@ =~= live_ids(t, p));
        let r = TransportPlan { bundled: true, setups, shared };
        assert(r@ =~= transport_plan(t, desc@, hosts@));
        return r;
    }
    let mut k: usize = 0;
    while k < found.len()
        invariant
            k <= found@.len(),
            t == transceivers(ts@),
            p == pairs(found@),
            shared@.len() == 0,
            forall|j: int|
                0 <= j < found@.len() ==> (#[trigger] found@[j]).0 < ts@.len() && found@[j].1
                    < desc.media_sections@.len(),
            setups_from(desc@, t, p, hosts@, 0, Seq::empty()) == setups_from(
                desc@,
                t,
                p,
                hosts@,
                k as int,
                setups@,
            ),
        decreases found@.len() - k,
    {
        assert(p[k as int] == (found@[k as int].0 as int, found@[k as int].1 as int));
        let s = &desc.media_sections[found[k].1];
        assert(desc@.media[found@[k as int].1 as int] == s@);
        assert(t[found@[k as int].0 as int] == ts@[found@[k as int].0 as int]@);
        if let Some(x) = plan_setup(desc, s, hosts, ts[found[k].0].id(), k == 0) {
            setups.push(x);
        }
        k += 1;
    }
    let r = TransportPlan { bundled: false, setups, shared };
    assert(r@ =~= transport_plan(t, desc@, hosts@));
    r
}

} // verus!

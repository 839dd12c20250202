//! What a remote description brings about.

use crate::action::ActionView;
use crate::address::section_address;
use crate::address::section_rtcp;
use crate::address::IpAddress;
use crate::address::SocketAddress;
use crate::config::ConfigView;
use crate::config::TransportMode;
use crate::error::RtcErrorView;
use crate::local::TsStep;
use crate::matching::kind_and_mid;
use crate::matching::kind_is;
use crate::matching::kind_without_mid;
use crate::matching::matched;
use crate::matching::none_used;
use crate::matching::one_to_one;
use crate::negotiate::answer_step;
use crate::negotiate::has_terms;
use crate::negotiate::is_same_transceiver;
use crate::negotiate::offer_step;
use crate::negotiate::reinvite_step;
use crate::negotiate::Step;
use crate::remote::answered;
use crate::remote::answered_from;
use crate::remote::credential_lines;
use crate::remote::credential_sections;
use crate::remote::credential_step;
use crate::remote::credentials_of;
use crate::remote::direct_address_from;
use crate::remote::is_setup;
use crate::remote::offer_section_step;
use crate::remote::offered;
use crate::remote::offered_from;
use crate::remote::reinvited;
use crate::remote::reinvited_from;
use crate::remote::required_fingerprint;
use crate::remote::role_after;
use crate::remote::role_from;
use crate::remote::setup_of;
use crate::remote::setups_from;
use crate::remote::transport_for;
use crate::remote::transport_plan;
use crate::remote::CredentialsView;
use crate::remote::MediaSetup;
use crate::remote::OfferState;
use crate::sdp::fingerprint_from;
use crate::sdp::fingerprint_line;
use crate::sdp::has_key;
use crate::sdp::keyed;
use crate::sdp::AttributeView;
use crate::sdp::DescriptionView;
use crate::sdp::MediaKind;
use crate::sdp::SectionView;
use crate::search::first;
use crate::stream::stream_of;
use crate::text::words;
use crate::transceiver::TransceiverView;
use crate::written::first_value_is_first;
use crate::written::values;
use vstd::prelude::*;

verus! {

proof fn answer_reaches_from(
    st: TsStep,
    p: Seq<(int, int)>,
    m: Seq<SectionView>,
    media: Seq<(u64, u64)>,
    primary: Option<u64>,
    k: int,
    q: int,
    x: int,
)
    requires
        0 <= k <= p.len(),
        one_to_one(p),
        forall|i: int| 0 <= i < p.len() ==> 0 <= (#[trigger] p[i]).0 < st.ts.len(),
    ensures
        ({
            let f = answered_from(st, p, m, media, primary, k).ts;
            &&& f.len() == st.ts.len()
            &&& k <= q < p.len() ==> is_same_transceiver(st.ts[p[q].0], f[p[q].0]) && has_terms(
                f[p[q].0],
                st.ts[p[q].0],
                m[p[q].1],
            )
            &&& 0 <= x < st.ts.len() && (forall|i: int| k <= i < p.len() ==> (#[trigger] p[i]).0
                != x) ==> f[x] == st.ts[x]
        }),
    decreases p.len() - k,
{
    if k < p.len() {
        let i = p[k].0;
        let transport = transport_for(media, primary, st.ts[i].id);
        let next = st.with(i, answer_step(st.at(i), m[p[k].1], transport));
        crate::negotiate::answers_are_taken_over(st.at(i), m[p[k].1], transport);
        answer_reaches_from(next, p, m, media, primary, k + 1, q, x);
        answer_reaches_from(next, p, m, media, primary, k + 1, q, i);
        if k < q < p.len() {
            assert(p[k].0 != p[q].0);
        }
        assert forall|j: int| k + 1 <= j < p.len() implies (#[trigger] p[j]).0 != i by {
            assert(p[k].0 != p[j].0);
        }
    }
}

/// Every transceiver that a section of an answer is matched to takes over what that section says;
/// every other one stays as it is.
pub proof fn answers_reach_their_transceivers(
    st: TsStep,
    m: Seq<SectionView>,
    media: Seq<(u64, u64)>,
    primary: Option<u64>,
    q: int,
    x: int,
)
    ensures
        ({
            let p = matched(st.ts, m);
            let f = answered(st, m, media, primary).ts;
            &&& f.len() == st.ts.len()
            &&& 0 <= q < p.len() ==> is_same_transceiver(st.ts[p[q].0], f[p[q].0]) && has_terms(
                f[p[q].0],
                st.ts[p[q].0],
                m[p[q].1],
            )
            &&& 0 <= x < st.ts.len() && (forall|i: int| 0 <= i < p.len() ==> (#[trigger] p[i]).0
                != x) ==> f[x] == st.ts[x]
        }),
{
    crate::matching::matching_is_one_to_one(st.ts, m);
    answer_reaches_from(st, matched(st.ts, m), m, media, primary, 0, q, x);
}

proof fn reinvite_reaches_from(
    st: TsStep,
    p: Seq<(int, int)>,
    m: Seq<SectionView>,
    k: int,
    q: int,
    x: int,
)
    requires
        0 <= k <= p.len(),
        one_to_one(p),
        forall|i: int| 0 <= i < p.len() ==> 0 <= (#[trigger] p[i]).0 < st.ts.len(),
    ensures
        ({
            let f = reinvited_from(st, p, m, k).ts;
            &&& f.len() == st.ts.len()
            &&& k <= q < p.len() ==> is_same_transceiver(st.ts[p[q].0], f[p[q].0]) && has_terms(
                f[p[q].0],
                st.ts[p[q].0],
                m[p[q].1],
            )
            &&& 0 <= x < st.ts.len() && (forall|i: int| k <= i < p.len() ==> (#[trigger] p[i]).0
                != x) ==> f[x] == st.ts[x]
        }),
    decreases p.len() - k,
{
    if k < p.len() {
        let i = p[k].0;
        let next = st.with(i, reinvite_step(st.at(i), m[p[k].1]));
        crate::negotiate::reinvites_are_taken_over(st.at(i), m[p[k].1]);
        reinvite_reaches_from(next, p, m, k + 1, q, x);
        reinvite_reaches_from(next, p, m, k + 1, q, i);
        if k < q < p.len() {
            assert(p[k].0 != p[q].0);
        }
        assert forall|j: int| k + 1 <= j < p.len() implies (#[trigger] p[j]).0 != i by {
            assert(p[k].0 != p[j].0);
        }
    }
}

/// Every transceiver that a section of a re-offer is matched to takes over what that section says;
/// every other one stays as it is.
pub proof fn reinvites_reach_their_transceivers(st: TsStep, m: Seq<SectionView>, q: int, x: int)
    ensures
        ({
            let p = matched(st.ts, m);
            let f = reinvited(st, m).ts;
            &&& f.len() == st.ts.len()
            &&& 0 <= q < p.len() ==> is_same_transceiver(st.ts[p[q].0], f[p[q].0]) && has_terms(
                f[p[q].0],
                st.ts[p[q].0],
                m[p[q].1],
            )
            &&& 0 <= x < st.ts.len() && (forall|i: int| 0 <= i < p.len() ==> (#[trigger] p[i]).0
                != x) ==> f[x] == st.ts[x]
        }),
{
    crate::matching::matching_is_one_to_one(st.ts, m);
    reinvite_reaches_from(st, matched(st.ts, m), m, 0, q, x);
}

/// A transceiver is that of an offered section.
pub open spec fn is_offered(t: TransceiverView, s: SectionView) -> bool {
    &&& t.kind == s.kind
    &&& s.mid.len() > 0 ==> t.mid == Some(s.mid)
    &&& t.direction.spec_sends() <==> s.direction.spec_sends()
    &&& t.direction.spec_receives() <==> s.direction.spec_receives()
    &&& stream_of(s.attributes).ssrc is Some ==> (t.receiver matches Some(r) ==> r.ssrc
        == stream_of(s.attributes).ssrc->0)
}

proof fn offer_reaches_from(
    st: OfferState,
    m: Seq<SectionView>,
    k: int,
    c: ConfigView,
    primary: Option<u64>,
    x: int,
    j: int,
)
    requires
        0 <= k <= m.len(),
        st.used.len() == st.ts.len(),
    ensures
        ({
            let f = offered_from(st, m, k, c, primary);
            &&& f.ts.len() >= st.ts.len()
            &&& f.used.len() == f.ts.len()
            &&& 0 <= x < st.ts.len() && st.used[x] ==> f.ts[x] == st.ts[x] && f.used[x]
            &&& k <= j < m.len() ==> exists|i: int|
                0 <= i < f.ts.len() && is_offered(#[trigger] f.ts[i], m[j]) && f.used[i] && (i
                    >= st.ts.len() || !st.used[i])
        }),
    decreases m.len() - k,
{
    if k < m.len() {
        let s = m[k];
        let info = stream_of(s.attributes);
        let next = offer_section_step(st, s, c, primary);
        crate::matching::free_facts(st.ts, st.used, kind_and_mid(s.kind, s.mid), 0);
        crate::matching::free_facts(st.ts, st.used, kind_without_mid(s.kind), 0);
        crate::matching::free_facts(st.ts, st.used, kind_is(s.kind), 0);
        offer_reaches_from(next, m, k + 1, c, primary, x, j);
        let f = offered_from(st, m, k, c, primary);
        let at = match crate::remote::offer_owner(st.ts, st.used, s) {
            Some(o) => {
                let a = if o.1 {
                    crate::local::mid_step(Step { t: st.ts[o.0], acts: st.acts }, s.mid)
                } else {
                    Step { t: st.ts[o.0], acts: st.acts }
                };
                crate::negotiate::offers_are_taken_over(
                    Step {
                        t: a.t,
                        acts: crate::negotiate::offer_extensions(a.acts, info, primary),
                    },
                    s,
                    info,
                    o.1,
                );
                o.0
            },
            None => {
                crate::negotiate::offers_create_what_they_announce(
                    st.next_id,
                    s,
                    info,
                    c.nack_enabled(s.kind),
                    if c.transport_mode == TransportMode::Rtp {
                        None
                    } else {
                        primary
                    },
                    crate::negotiate::offer_extensions(st.acts, info, primary),
                );
                st.ts.len() as int
            },
        };
        assert(is_offered(next.ts[at], s));
        assert(next.used[at]);
        offer_reaches_from(next, m, k + 1, c, primary, at, j);
        if j == k {
            assert(is_offered(f.ts[at], m[j]));
        } else if k < j < m.len() {
            let i = choose|i: int|
                0 <= i < f.ts.len() && is_offered(#[trigger] f.ts[i], m[j]) && f.used[i] && (i
                    >= next.ts.len() || !next.used[i]);
            assert(is_offered(f.ts[i], m[j]));
        }
    }
}

/// Every section of an offer has a transceiver afterwards: of its kind, with its mid, in its
/// direction, and with a receiver of the stream that it announces.
pub proof fn offers_reach_transceivers(
    ts: Seq<TransceiverView>,
    next_id: u64,
    acts: Seq<ActionView>,
    m: Seq<SectionView>,
    c: ConfigView,
    primary: Option<u64>,
    j: int,
)
    requires
        0 <= j < m.len(),
    ensures
        exists|i: int|
            0 <= i < offered(ts, next_id, acts, m, c, primary).ts.len() && is_offered(
                #[trigger] offered(ts, next_id, acts, m, c, primary).ts[i],
                m[j],
            ),
{
    let st = OfferState { ts, used: none_used(ts.len()), next_id, acts };
    offer_reaches_from(st, m, 0, c, primary, 0, j);
    let f = offered_from(st, m, 0, c, primary);
    let i = choose|i: int|
        0 <= i < f.ts.len() && is_offered(#[trigger] f.ts[i], m[j]) && f.used[i] && (i >= ts.len()
            || !st.used[i]);
    assert(is_offered(offered(ts, next_id, acts, m, c, primary).ts[i], m[j]));
}

proof fn lines_are_read(a: Seq<AttributeView>, k: int, c: CredentialsView, section: bool)
    requires
        0 <= k <= a.len(),
        values(a.take(k), "ice-ufrag"@).len() > 0 ==> c.ufrag == values(
            a.take(k),
            "ice-ufrag"@,
        ).last(),
        values(a.take(k), "ice-pwd"@).len() > 0 ==> c.pwd == values(a.take(k), "ice-pwd"@).last(),
    ensures
        ({
            let r = credential_lines(a, k, c, section);
            &&& values(a, "ice-ufrag"@).len() > 0 ==> r.ufrag == values(a, "ice-ufrag"@).last()
            &&& values(a, "ice-ufrag"@).len() == 0 ==> r.ufrag == c.ufrag
            &&& values(a, "ice-pwd"@).len() > 0 ==> r.pwd == values(a, "ice-pwd"@).last()
            &&& values(a, "ice-pwd"@).len() == 0 ==> r.pwd == c.pwd
        }),
    decreases a.len() - k,
{
    broadcast use crate::written::values_push;

    ice_keys_differ();
    if k < a.len() {
        assert(a.take(k + 1) =~= a.take(k).push(a[k]));
        lines_are_read(a, k + 1, credential_step(a[k], c, section), section);
        values_grow(a, k + 1, "ice-ufrag"@);
        values_grow(a, k + 1, "ice-pwd"@);
    } else {
        assert(a.take(k) =~= a);
    }
}

proof fn values_grow(a: Seq<AttributeView>, k: int, key: Seq<char>)
    requires
        0 <= k <= a.len(),
    ensures
        values(a.take(k), key).len() <= values(a, key).len(),
    decreases a.len() - k,
{
    broadcast use crate::written::values_push;

    if k < a.len() {
        assert(a.take(k + 1) =~= a.take(k).push(a[k]));
        values_grow(a, k + 1, key);
    } else {
        assert(a.take(k) =~= a);
    }
}

proof fn ice_keys_differ()
    ensures
        "ice-ufrag"@ != "ice-pwd"@,
        "ice-ufrag"@ != "candidate"@,
        "ice-pwd"@ != "candidate"@,
{
    reveal_strlit("ice-ufrag");
    reveal_strlit("ice-pwd");
    reveal_strlit("candidate");
    assert("ice-ufrag"@.len() == 9 && "ice-ufrag"@[0] == 'i');
    assert("ice-pwd"@.len() == 7);
    assert("candidate"@.len() == 9 && "candidate"@[0] == 'c');
}

proof fn sections_are_read(m: Seq<SectionView>, k: int, c: CredentialsView, i: int, u: bool)
    requires
        0 <= k,
        k <= i < m.len(),
        u ==> values(m[i].attributes, "ice-ufrag"@).len() > 0 && forall|j: int|
            i < j < m.len() ==> values((#[trigger] m[j]).attributes, "ice-ufrag"@).len() == 0,
        !u ==> values(m[i].attributes, "ice-pwd"@).len() > 0 && forall|j: int|
            i < j < m.len() ==> values((#[trigger] m[j]).attributes, "ice-pwd"@).len() == 0,
    ensures
        u ==> credential_sections(m, k, c).ufrag == values(m[i].attributes, "ice-ufrag"@).last(),
        !u ==> credential_sections(m, k, c).pwd == values(m[i].attributes, "ice-pwd"@).last(),
    decreases m.len() - k,
{
    let a = m[k].attributes;
    assert(a.take(0) =~= Seq::<AttributeView>::empty());
    let next = credential_lines(a, 0, c, true);
    lines_are_read(a, 0, c, true);
    if k < i {
        sections_are_read(m, k + 1, next, i, u);
    } else {
        rest_is_silent(m, k + 1, next, u);
    }
}

proof fn rest_is_silent(m: Seq<SectionView>, k: int, c: CredentialsView, u: bool)
    requires
        0 <= k,
        u ==> forall|j: int|
            k <= j < m.len() ==> values((#[trigger] m[j]).attributes, "ice-ufrag"@).len() == 0,
        !u ==> forall|j: int|
            k <= j < m.len() ==> values((#[trigger] m[j]).attributes, "ice-pwd"@).len() == 0,
    ensures
        u ==> credential_sections(m, k, c).ufrag == c.ufrag,
        !u ==> credential_sections(m, k, c).pwd == c.pwd,
    decreases m.len() - k,
{
    if k < m.len() {
        let a = m[k].attributes;
        assert(a.take(0) =~= Seq::<AttributeView>::empty());
        lines_are_read(a, 0, c, true);
        assert(values(m[k].attributes, "ice-ufrag"@).len() == 0 || !u);
        rest_is_silent(m, k + 1, credential_lines(a, 0, c, true), u);
    }
}

/// The username fragment and the password of the other side are those of the last line that states
/// each.
pub proof fn credentials_are_read(d: DescriptionView, i: int)
    requires
        0 <= i < d.media.len(),
    ensures
        values(d.media[i].attributes, "ice-ufrag"@).len() > 0 && (forall|j: int|
            i < j < d.media.len() ==> values(
                (#[trigger] d.media[j]).attributes,
                "ice-ufrag"@,
            ).len() == 0) ==> credentials_of(d).ufrag == values(
            d.media[i].attributes,
            "ice-ufrag"@,
        ).last(),
        values(d.media[i].attributes, "ice-pwd"@).len() > 0 && (forall|j: int|
            i < j < d.media.len() ==> values(
                (#[trigger] d.media[j]).attributes,
                "ice-pwd"@,
            ).len() == 0) ==> credentials_of(d).pwd == values(
            d.media[i].attributes,
            "ice-pwd"@,
        ).last(),
{
    let c = credential_lines(
        d.session.attributes,
        0,
        CredentialsView { ufrag: None, pwd: None, candidates: Seq::empty() },
        false,
    );
    if values(d.media[i].attributes, "ice-ufrag"@).len() > 0 && (forall|j: int|
        i < j < d.media.len() ==> values((#[trigger] d.media[j]).attributes, "ice-ufrag"@).len()
            == 0) {
        sections_are_read(d.media, 0, c, i, true);
    }
    if values(d.media[i].attributes, "ice-pwd"@).len() > 0 && (forall|j: int|
        i < j < d.media.len() ==> values((#[trigger] d.media[j]).attributes, "ice-pwd"@).len()
            == 0) {
        sections_are_read(d.media, 0, c, i, false);
    }
}

proof fn candidates_stay(a: Seq<AttributeView>, k: int, c: CredentialsView, section: bool, v: Seq<char>)
    requires
        0 <= k,
    ensures
        c.candidates.contains(v) ==> credential_lines(a, k, c, section).candidates.contains(v),
        section ==> forall|i: int|
            k <= i < a.len() && #[trigger] a[i] == (AttributeView {
                key: "candidate"@,
                value: Some(v),
            }) ==> credential_lines(a, k, c, section).candidates.contains(v),
        credential_lines(a, k, c, section).candidates.contains(v) ==> c.candidates.contains(v) || (
        section && exists|i: int|
            k <= i < a.len() && #[trigger] a[i] == (AttributeView {
                key: "candidate"@,
                value: Some(v),
            })),
    decreases a.len() - k,
{
    ice_keys_differ();
    if k < a.len() {
        let next = credential_step(a[k], c, section);
        candidates_stay(a, k + 1, next, section, v);
        if c.candidates.contains(v) {
            assert(next.candidates[c.candidates.index_of(v)] == v);
        }
        if section && a[k] == (AttributeView { key: "candidate"@, value: Some(v) }) {
            assert(next.candidates[c.candidates.len() as int] == v);
        }
        if next.candidates.contains(v) && !c.candidates.contains(v) {
            let i = next.candidates.index_of(v);
            if i < c.candidates.len() {
                assert(c.candidates[i] == v);
            }
            assert(a[k] == (AttributeView { key: "candidate"@, value: Some(v) }));
        }
    }
}

proof fn candidates_pass(m: Seq<SectionView>, k: int, c: CredentialsView, v: Seq<char>)
    requires
        0 <= k,
    ensures
        credential_sections(m, k, c).candidates.contains(v) <==> c.candidates.contains(v) || (
        exists|j: int, i: int|
            k <= j < m.len() && 0 <= i < m[j].attributes.len() && #[trigger] m[j].attributes[i] == (
            AttributeView { key: "candidate"@, value: Some(v) })),
    decreases m.len() - k,
{
    if k < m.len() {
        let a = m[k].attributes;
        let next = credential_lines(a, 0, c, true);
        candidates_stay(a, 0, c, true, v);
        candidates_pass(m, k + 1, next, v);
        let line = AttributeView { key: "candidate"@, value: Some(v) };
        if exists|j: int, i: int|
            k <= j < m.len() && 0 <= i < m[j].attributes.len() && #[trigger] m[j].attributes[i]
                == line {
            let (j, i) = choose|j: int, i: int|
                k <= j < m.len() && 0 <= i < m[j].attributes.len() && #[trigger] m[j].attributes[i]
                    == line;
            if j == k {
                assert(a[i] == line);
            } else {
                assert(m[j].attributes[i] == line);
            }
        }
        if next.candidates.contains(v) && !c.candidates.contains(v) {
            let i = choose|i: int| 0 <= i < a.len() && #[trigger] a[i] == line;
            assert(m[k].attributes[i] == line);
        }
    }
}

/// The candidates of the other side are those of the candidate lines of its sections, and no
/// others.
pub proof fn candidates_are_read(d: DescriptionView, v: Seq<char>)
    ensures
        credentials_of(d).candidates.contains(v) <==> exists|j: int, i: int|
            0 <= j < d.media.len() && 0 <= i < d.media[j].attributes.len()
                && #[trigger] d.media[j].attributes[i] == (AttributeView {
                key: "candidate"@,
                value: Some(v),
            }),
{
    let c0 = CredentialsView { ufrag: None, pwd: None, candidates: Seq::empty() };
    candidates_stay(d.session.attributes, 0, c0, false, v);
    candidates_pass(d.media, 0, credential_lines(d.session.attributes, 0, c0, false), v);
}

proof fn setup_is_found(m: Seq<SectionView>, k: int, j: int, i: int)
    requires
        0 <= k <= j < m.len(),
        0 <= i < m[j].attributes.len(),
        m[j].attributes[i].key == "setup"@ && m[j].attributes[i].value is Some,
        forall|x: int|
            0 <= x < i ==> !((#[trigger] m[j].attributes[x]).key == "setup"@
                && m[j].attributes[x].value is Some),
        forall|y: int, x: int|
            0 <= y < j && 0 <= x < m[y].attributes.len() ==> !((
            #[trigger] m[y].attributes[x]).key == "setup"@ && m[y].attributes[x].value is Some),
    ensures
        role_from(m, k) == Some(crate::remote::role_of_setup(m[j].attributes[i].value->0)),
    decreases j - k,
{
    crate::search::first_from_facts(m[k].attributes, is_setup(), 0);
    if k == j {
        assert(is_setup()(m[j].attributes[i]));
    } else {
        if let Some(x) = first(m[k].attributes, is_setup()) {
            assert(is_setup()(m[k].attributes[x]));
        }
        setup_is_found(m, k + 1, j, i);
    }
}

/// Our DTLS role, unless it is settled: where the first setup line of the other side makes it the
/// client, or leaves the choice, we are the server; where it makes it the server, we are the client.
pub proof fn setup_lines_settle_the_role(m: Seq<SectionView>, j: int, i: int)
    requires
        0 <= j < m.len(),
        0 <= i < m[j].attributes.len(),
        m[j].attributes[i].key == "setup"@ && m[j].attributes[i].value is Some,
        forall|x: int|
            0 <= x < i ==> !((#[trigger] m[j].attributes[x]).key == "setup"@
                && m[j].attributes[x].value is Some),
        forall|y: int, x: int|
            0 <= y < j && 0 <= x < m[y].attributes.len() ==> !((
            #[trigger] m[y].attributes[x]).key == "setup"@ && m[y].attributes[x].value is Some),
    ensures
        ({
            let v = m[j].attributes[i].value->0;
            &&& v == "active"@ || v == "actpass"@ ==> role_after(None, false, m) == Some(false)
            &&& v == "passive"@ ==> role_after(None, false, m) == Some(true)
        }),
{
    setup_is_found(m, 0, j, i);
    reveal_strlit("active");
    reveal_strlit("actpass");
    reveal_strlit("passive");
    assert("active"@[0] == 'a');
    assert("actpass"@[0] == 'a');
    assert("passive"@[0] == 'p');
}

/// A role that is settled stays, and a direct transport is that of a client.
pub proof fn settled_roles_stay(m: Seq<SectionView>, role: bool, direct: bool)
    ensures
        role_after(Some(role), direct, m) == Some(role),
        role_after(None, true, m) == Some(true),
{
}

/// With WebRTC a remote description is taken only with a fingerprint under SHA-256: that of the
/// session or, without one there, that of the first section that has one. Other connections need
/// none.
pub proof fn fingerprints_are_required(d: DescriptionView, mode: TransportMode, line: Seq<char>)
    ensures
        mode != TransportMode::WebRtc ==> required_fingerprint(mode, d) == Ok::<_, RtcErrorView>(
            None::<Seq<char>>,
        ),
        mode == TransportMode::WebRtc && states_fingerprint(d, line) && words(line).len() == 2
            && words(line)[0] == "sha-256"@ ==> required_fingerprint(mode, d) == Ok::<
            _,
            RtcErrorView,
        >(Some(words(line)[1])),
        mode == TransportMode::WebRtc && states_fingerprint(d, line) && !(words(line).len() == 2
            && words(line)[0] == "sha-256"@) ==> required_fingerprint(mode, d) is Err,
        mode == TransportMode::WebRtc && values(d.session.attributes, "fingerprint"@).len() == 0 && (
        forall|j: int|
            0 <= j < d.media.len() ==> values(
                (#[trigger] d.media[j]).attributes,
                "fingerprint"@,
            ).len() == 0) ==> required_fingerprint(mode, d) is Err,
{
    first_value_is_first(d.session.attributes, "fingerprint"@);
    fingerprint_is_found(d.media, 0, line);
}

/// The fingerprint line of a description is the first one of the session or, without one there, the
/// first one of the first section that has one.
pub open spec fn states_fingerprint(d: DescriptionView, line: Seq<char>) -> bool {
    let s = values(d.session.attributes, "fingerprint"@);
    if s.len() > 0 {
        s[0] == Some(line)
    } else {
        first_fingerprint(d.media, line)
    }
}

/// The first section with a fingerprint line has `line` in its first one.
pub open spec fn first_fingerprint(m: Seq<SectionView>, line: Seq<char>) -> bool {
    exists|j: int|
        0 <= j < m.len() && values((#[trigger] m[j]).attributes, "fingerprint"@).len() > 0
            && values(m[j].attributes, "fingerprint"@)[0] == Some(line) && forall|i: int|
            0 <= i < j ==> values((#[trigger] m[i]).attributes, "fingerprint"@).len() == 0
}

proof fn fingerprint_is_found(m: Seq<SectionView>, k: int, line: Seq<char>)
    requires
        0 <= k <= m.len(),
        forall|i: int|
            0 <= i < k ==> values((#[trigger] m[i]).attributes, "fingerprint"@).len() == 0,
    ensures
        first_fingerprint(m, line) ==> fingerprint_from(m, k) == crate::sdp::fingerprint_of(
            AttributeView { key: "fingerprint"@, value: Some(line) },
        ),
        (forall|j: int|
            0 <= j < m.len() ==> values((#[trigger] m[j]).attributes, "fingerprint"@).len() == 0)
            ==> fingerprint_from(m, k) is Missing,
    decreases m.len() - k,
{
    if k < m.len() {
        first_value_is_first(m[k].attributes, "fingerprint"@);
        if values(m[k].attributes, "fingerprint"@).len() == 0 {
            fingerprint_is_found(m, k + 1, line);
        } else if first_fingerprint(m, line) {
            let j = choose|j: int|
                0 <= j < m.len() && values((#[trigger] m[j]).attributes, "fingerprint"@).len() > 0
                    && values(m[j].attributes, "fingerprint"@)[0] == Some(line) && forall|i: int|
                    0 <= i < j ==> values((#[trigger] m[i]).attributes, "fingerprint"@).len() == 0;
            assert(j == k);
        }
    }
}

proof fn last_address_is_found(
    d: DescriptionView,
    hosts: Seq<(Seq<char>, IpAddress)>,
    k: int,
    found: Option<SocketAddress>,
    i: int,
)
    requires
        0 <= k,
        i >= k ==> i < d.media.len() && section_address(d, d.media[i], hosts, false) is Some,
        forall|j: int|
            i < j < d.media.len() ==> section_address(d, #[trigger] d.media[j], hosts, false) is None,
    ensures
        direct_address_from(d, hosts, k, found) == (if i >= k {
            section_address(d, d.media[i], hosts, false)
        } else {
            found
        }),
    decreases d.media.len() - k,
{
    if k < d.media.len() {
        let next = match section_address(d, d.media[k], hosts, false) {
            Some(a) => Some(a),
            None => found,
        };
        last_address_is_found(d, hosts, k + 1, next, i);
    }
}

/// A direct transport starts to the address of the last section that has one, and to none where no
/// section has one.
pub proof fn direct_transports_start_to_the_last_address(
    d: DescriptionView,
    hosts: Seq<(Seq<char>, IpAddress)>,
    i: int,
)
    requires
        -1 <= i < d.media.len(),
        i >= 0 ==> section_address(d, d.media[i], hosts, false) is Some,
        forall|j: int|
            i < j < d.media.len() ==> section_address(d, #[trigger] d.media[j], hosts, false) is None,
    ensures
        direct_address_from(d, hosts, 0, None) == (if i >= 0 {
            section_address(d, d.media[i], hosts, false)
        } else {
            None
        }),
{
    last_address_is_found(d, hosts, 0, None, i);
}

/// A direct transport is set up for a transceiver to the address of its section, with RTCP where
/// the section says, latching onto the stream of its first ssrc line.
pub open spec fn sets_up(
    x: MediaSetup,
    d: DescriptionView,
    s: SectionView,
    hosts: Seq<(Seq<char>, IpAddress)>,
    id: u64,
) -> bool {
    &&& x.transceiver == id
    &&& section_address(d, s, hosts, true) == Some(x.remote)
    &&& x.needs_rtcp_socket <==> values(s.attributes, "rtcp-mux"@).len() == 0
    &&& x.rtcp == section_rtcp(s, x.remote, hosts)
    &&& forall|ssrc: u32|
        values(s.attributes, "ssrc"@).len() > 0 && #[trigger] crate::codec::is_ssrc_line(
            AttributeView { key: "ssrc"@, value: values(s.attributes, "ssrc"@)[0] },
            ssrc,
        ) ==> x.expected_ssrc == Some(ssrc)
}

proof fn setup_fits(
    d: DescriptionView,
    s: SectionView,
    hosts: Seq<(Seq<char>, IpAddress)>,
    id: u64,
    primary: bool,
)
    ensures
        setup_of(d, s, hosts, id, primary) is Some <==> section_address(d, s, hosts, true) is Some,
        setup_of(d, s, hosts, id, primary) matches Some(x) ==> sets_up(x, d, s, hosts, id)
            && x.primary == primary,
{
    first_value_is_first(s.attributes, "rtcp-mux"@);
    first_value_is_first(s.attributes, "ssrc"@);
}

proof fn setups_fit(
    d: DescriptionView,
    ts: Seq<TransceiverView>,
    p: Seq<(int, int)>,
    hosts: Seq<(Seq<char>, IpAddress)>,
    k: int,
    acc: Seq<MediaSetup>,
    q: int,
)
    requires
        0 <= k <= p.len(),
    ensures
        ({
            let r = setups_from(d, ts, p, hosts, k, acc);
            &&& r.len() >= acc.len()
            &&& forall|i: int| 0 <= i < acc.len() ==> #[trigger] r[i] == acc[i]
            &&& k <= q < p.len() && section_address(d, d.media[p[q].1], hosts, true) is Some
                ==> exists|i: int|
                acc.len() <= i < r.len() && sets_up(
                    #[trigger] r[i],
                    d,
                    d.media[p[q].1],
                    hosts,
                    ts[p[q].0].id,
                ) && (r[i].primary <==> q == 0)
        }),
    decreases p.len() - k,
{
    if k < p.len() {
        let s = d.media[p[k].1];
        let id = ts[p[k].0].id;
        setup_fits(d, s, hosts, id, k == 0);
        let next = match setup_of(d, s, hosts, id, k == 0) {
            Some(x) => acc.push(x),
            None => acc,
        };
        setups_fit(d, ts, p, hosts, k + 1, next, q);
        let r = setups_from(d, ts, p, hosts, k, acc);
        assert forall|i: int| 0 <= i < acc.len() implies #[trigger] r[i] == acc[i] by {
            assert(r[i] == next[i]);
        }
        if q == k && section_address(d, s, hosts, true) is Some {
            assert(r[acc.len() as int] == next[acc.len() as int]);
            assert(sets_up(r[acc.len() as int], d, s, hosts, id));
        }
    }
}

/// On plain RTP each section that a transceiver is matched to, and that has an address, gets a
/// transport to that address, the first one the primary transport; in a group one transport, to the
/// address of the section that speaks for the group, serves all of them.
pub proof fn sections_get_their_transports(
    ts: Seq<TransceiverView>,
    d: DescriptionView,
    hosts: Seq<(Seq<char>, IpAddress)>,
    q: int,
)
    requires
        0 <= q < matched(ts, d.media).len(),
    ensures
        ({
            let p = matched(ts, d.media);
            let plan = transport_plan(ts, d, hosts);
            let s = d.media[p[q].1];
            let id = ts[p[q].0].id;
            &&& plan.bundled <==> crate::address::has_bundle(d)
            &&& !plan.bundled && section_address(d, s, hosts, true) is Some ==> exists|i: int|
                0 <= i < plan.setups.len() && sets_up(#[trigger] plan.setups[i], d, s, hosts, id) && (
                plan.setups[i].primary <==> q == 0)
            &&& plan.bundled ==> plan.shared.len() == p.len() && plan.shared[q] == id
                && plan.setups.len() <= 1 && forall|i: int|
                0 <= i < plan.setups.len() ==> (#[trigger] plan.setups[i]).primary
        }),
{
    let p = matched(ts, d.media);
    setups_fit(d, ts, p, hosts, 0, Seq::empty(), q);
}

/// The one transport of a group goes to the address of the section whose mid stands first in the
/// group line, where a transceiver is matched to it, else to that of the first section that one is
/// matched to.
pub proof fn groups_follow_their_first_section(
    ts: Seq<TransceiverView>,
    d: DescriptionView,
    hosts: Seq<(Seq<char>, IpAddress)>,
    k: int,
    line: Seq<char>,
    q: int,
)
    requires
        0 <= k < d.session.attributes.len(),
        d.session.attributes[k] == (AttributeView { key: "group"@, value: Some(line) }),
        forall|i: int| 0 <= i < k ==> (#[trigger] d.session.attributes[i]).key != "group"@,
        words(line).len() >= 2,
        words(line)[0] == "BUNDLE"@,
        crate::address::has_bundle(d),
        0 <= q < matched(ts, d.media).len(),
        section_address(d, d.media[matched(ts, d.media)[q].1], hosts, true) is Some,
    ensures
        ({
            let p = matched(ts, d.media);
            let plan = transport_plan(ts, d, hosts);
            let s = d.media[p[q].1];
            let id = ts[p[q].0].id;
            &&& s.mid == words(line)[1] && (forall|j: int|
                0 <= j < q ==> d.media[(#[trigger] p[j]).1].mid != words(line)[1])
                ==> plan.setups.len() == 1 && sets_up(plan.setups[0], d, s, hosts, id)
            &&& q == 0 && (forall|j: int|
                0 <= j < p.len() ==> d.media[(#[trigger] p[j]).1].mid != words(line)[1])
                ==> plan.setups.len() == 1 && sets_up(plan.setups[0], d, s, hosts, id)
        }),
{
    let a = d.session.attributes;
    let p = matched(ts, d.media);
    let group = crate::sdp::keyed("group"@);
    crate::search::first_from_facts(a, group, 0);
    assert(group(a[k]));
    let i = first(a, group)->0;
    assert(group(a[i]));
    assert(i == k);
    let f = crate::remote::section_mid_is(d.media, words(line)[1]);
    crate::search::first_from_facts(p, f, 0);
    assert(crate::address::bundle_tag(d) == Some(words(line)[1]));
    crate::matching::matching_is_one_to_one(ts, d.media);
    setup_fits(d, d.media[p[q].1], hosts, ts[p[q].0].id, true);
    let tagged = d.media[p[q].1].mid == words(line)[1] && forall|j: int|
        0 <= j < q ==> d.media[(#[trigger] p[j]).1].mid != words(line)[1];
    let untagged = forall|j: int|
        0 <= j < p.len() ==> d.media[(#[trigger] p[j]).1].mid != words(line)[1];
    if tagged {
        assert(f(p[q]));
        let j = first(p, f)->0;
        assert(f(p[j]));
        assert(d.media[p[j].1].mid == words(line)[1]);
        assert(j == q);
        assert(crate::remote::bundle_pair(d, p) == q);
    }
    if untagged {
        if let Some(j) = first(p, f) {
            assert(f(p[j]));
            assert(d.media[p[j].1].mid == words(line)[1]);
        }
        assert(crate::remote::bundle_pair(d, p) == 0);
    }
}

} // verus!

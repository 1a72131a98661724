//! The detail view of one domain: its totals, effective policy, sources and
//! most recent reports.
use vstd::prelude::*;

use crate::dmarc::Report;
use crate::insights::{
    domain_row, record_ips, single_policy_strength, strength_of, stronger_seq, strongest_policy,
    DomainTotals,
};
use crate::order::{as_ints, stable_desc_order, stable_order_desc};
use crate::sources::{ranked_sources, SourceTotals};
use crate::tally::{
    by_domain_like, distinct_count, report_domains, records_total, tally_records,
    total_messages, Measure, ReportFilter,
};
use crate::text::{eq_ignore_ascii_case, seq_less, sorted_distinct, string_of, views};

verus! {

/// The reports of a domain equal to `q` up to ASCII case, in order.
pub open spec fn matching(reps: Seq<Report>, q: Seq<char>) -> Seq<Report>
    decreases reps.len(),
{
    if reps.len() == 0 {
        seq![]
    } else {
        matching(reps.drop_last(), q) + if (by_domain_like(q))(reps.last()) {
            seq![reps.last()]
        } else {
            seq![]
        }
    }
}

/// The effective policy of a domain, as a tuple of domain, adkim, aspf, policy,
/// subdomain policy and percentage: the first report gives domain, adkim and aspf;
/// the policy is the strongest (earliest among equals), the subdomain policy the
/// first strictly strongest, the percentage the smallest.
pub open spec fn detail_policy(reps: Seq<Report>) -> Option<
    (Seq<char>, Seq<char>, Seq<char>, Seq<char>, Seq<char>, u8),
>
    decreases reps.len(),
{
    if reps.len() == 0 {
        None
    } else {
        let r = reps.last();
        match detail_policy(reps.drop_last()) {
            None => Some(
                (
                    r.policy.domain@,
                    r.policy.adkim@,
                    r.policy.aspf@,
                    r.policy.policy@,
                    r.policy.subdomain_policy@,
                    r.policy.pct,
                ),
            ),
            Some(t) => Some(
                (
                    t.0,
                    t.1,
                    t.2,
                    stronger_seq(t.3, r.policy.policy@),
                    if strength_of(r.policy.subdomain_policy@) > strength_of(t.4) {
                        r.policy.subdomain_policy@
                    } else {
                        t.4
                    },
                    if r.policy.pct < t.5 {
                        r.policy.pct
                    } else {
                        t.5
                    },
                ),
            ),
        }
    }
}

/// The effective published policy of a domain.
pub struct DomainPolicyDetail {
    pub domain: String,
    pub adkim: String,
    pub aspf: String,
    pub policy: String,
    pub subdomain_policy: String,
    pub pct: u8,
}

/// The totals of one report of a domain.
pub struct DomainDetailReport {
    pub id: String,
    pub org_name: String,
    pub report_id: String,
    pub begin: i64,
    pub end: i64,
    pub messages: u64,
    pub aligned: u64,
    pub sources: usize,
}

/// `row` holds the totals of report `rep`.
pub open spec fn report_row(row: DomainDetailReport, rep: Report) -> bool {
    &&& row.id@ == rep.id@
    &&& row.org_name@ == rep.org_name@
    &&& row.report_id@ == rep.report_id@
    &&& row.begin == rep.begin
    &&& row.end == rep.end
    &&& row.messages == records_total(rep.records@, Measure::Messages, None)
    &&& row.aligned == records_total(rep.records@, Measure::Aligned, None)
    &&& row.sources == record_ips(rep.records@).to_set().len()
}

/// The beginning of each report, in order.
pub open spec fn begins(reps: Seq<Report>) -> Seq<i128> {
    reps.map_values(|r: Report| r.begin as i128)
}

/// The most reports listed in a domain's detail.
pub open spec fn max_recent_reports() -> int {
    12
}

/// The detail of one domain.
pub struct DomainDetail {
    pub summary: DomainTotals,
    pub policy: DomainPolicyDetail,
    pub sources: Vec<SourceTotals>,
    pub recent_reports: Vec<DomainDetailReport>,
}

/// The totals of one report.
fn report_row_of(rep: &Report) -> (row: DomainDetailReport)
    requires
        records_total(rep.records@, Measure::Messages, None) <= u64::MAX,
    ensures
        report_row(row, *rep),
{
    let t = tally_records(&rep.records, None);
    let mut ips: Vec<String> = Vec::new();
    crate::insights::push_ips(&mut ips, &rep.records);
    assert(views(ips@) =~= record_ips(rep.records@));
    DomainDetailReport {
        id: rep.id.clone(),
        org_name: rep.org_name.clone(),
        report_id: rep.report_id.clone(),
        begin: rep.begin,
        end: rep.end,
        messages: t.messages,
        aligned: t.aligned,
        sources: distinct_count(&ips),
    }
}

proof fn lemma_matching_bound(reps: Seq<Report>, q: Seq<char>)
    ensures
        total_messages(matching(reps, q)) <= total_messages(reps),
        forall|k: int| 0 <= k < matching(reps, q).len() ==> reps.contains(#[trigger] matching(reps, q)[k]),
    decreases reps.len(),
{
    if reps.len() > 0 {
        lemma_matching_bound(reps.drop_last(), q);
        let m0 = matching(reps.drop_last(), q);
        crate::tally::lemma_records_total_bound(reps.last().records@, Measure::Messages, None);
        if (by_domain_like(q))(reps.last()) {
            let m = matching(reps, q);
            assert(m =~= m0.push(reps.last()));
            assert(m.drop_last() =~= m0);
        }
        assert forall|k: int| 0 <= k < matching(reps, q).len() implies reps.contains(
            #[trigger] matching(reps, q)[k],
        ) by {
            if k < m0.len() {
                assert(matching(reps, q)[k] == m0[k]);
                assert(reps.drop_last().contains(m0[k]));
                let j = choose|j: int| 0 <= j < reps.drop_last().len() && reps.drop_last()[j] == m0[k];
                assert(reps[j] == m0[k]);
            } else {
                assert(matching(reps, q)[k] == reps.last());
                assert(reps[reps.len() - 1] == reps.last());
            }
        }
    }
}

/// One report's messages are no more than those of all the reports.
proof fn lemma_member_bound(reps: Seq<Report>, r: Report)
    requires
        reps.contains(r),
    ensures
        records_total(r.records@, Measure::Messages, None) <= total_messages(reps),
    decreases reps.len(),
{
    crate::tally::lemma_reports_total_bound(reps.drop_last(), crate::tally::all_reports(), Measure::Messages, None);
    crate::tally::lemma_records_total_bound(reps.last().records@, Measure::Messages, None);
    if reps.last() != r {
        let j = choose|j: int| 0 <= j < reps.len() && reps[j] == r;
        assert(reps.drop_last()[j] == r);
        lemma_member_bound(reps.drop_last(), r);
    }
}

/// The detail of the domain equal to `domain` up to ASCII case, or `None` when no
/// report has such a domain. Sources are ranked by messages (ties by IP); the
/// reports are the 12 latest by beginning (ties in import order).
pub fn domain_detail(reports: &[Report], domain: &str) -> (r: Option<DomainDetail>)
    requires
        total_messages(reports@) <= u64::MAX,
    ensures
        r is None <==> matching(reports@, domain@).len() == 0,
        r matches Some(d) ==> {
            let m = matching(reports@, domain@);
            let p = detail_policy(m)->0;
            &&& domain_row(d.summary, reports@)
            &&& report_domains(m).contains(d.summary.domain@)
            &&& forall|e: Seq<char>| report_domains(m).contains(e) ==> !seq_less(e, d.summary.domain@)
            &&& d.policy.domain@ == p.0
            &&& d.policy.adkim@ == p.1
            &&& d.policy.aspf@ == p.2
            &&& d.policy.policy@ == p.3
            &&& d.policy.subdomain_policy@ == p.4
            &&& d.policy.pct == p.5
            &&& d.sources@.len() == if crate::sources::report_ips(reports@, by_domain_like(domain@)).to_set().len() < usize::MAX {
                crate::sources::report_ips(reports@, by_domain_like(domain@)).to_set().len() as int
            } else {
                usize::MAX as int
            }
            &&& forall|i: int| 0 <= i < d.sources@.len() ==> crate::sources::report_ips(
                reports@,
                by_domain_like(domain@),
            ).contains(#[trigger] d.sources@[i].source_ip@)
            &&& forall|i: int| 0 <= i < d.sources@.len() ==> crate::sources::source_row(
                #[trigger] d.sources@[i],
                reports@,
                by_domain_like(domain@),
            )
            &&& forall|i: int, j: int|
                0 <= i < j < d.sources@.len() ==> crate::sources::ranks_before(
                    #[trigger] d.sources@[i].messages,
                    d.sources@[i].source_ip@,
                    #[trigger] d.sources@[j].messages,
                    d.sources@[j].source_ip@,
                )
            &&& crate::text::all_distinct(crate::sources::row_ips(d.sources@))
            &&& d.recent_reports@.len() == if m.len() < max_recent_reports() {
                m.len() as int
            } else {
                max_recent_reports()
            }
            &&& exists|ord: Seq<int>|
                stable_desc_order(begins(m), ord) && forall|i: int|
                    0 <= i < d.recent_reports@.len() ==> report_row(
                        #[trigger] d.recent_reports@[i],
                        m[ord[i]],
                    )
        },
{
    let ghost q = domain@;
    // The matching reports, by index.
    let mut idxs: Vec<usize> = Vec::new();
    let mut i: usize = 0;
    assert(reports@.take(0) =~= Seq::<Report>::empty());
    while i < reports.len()
        invariant
            i <= reports@.len(),
            q == domain@,
            idxs@.len() == matching(reports@.take(i as int), q).len(),
            forall|k: int| 0 <= k < idxs@.len() ==> #[trigger] idxs@[k] < i && reports@[idxs@[k] as int]
                == matching(reports@.take(i as int), q)[k],
        decreases reports.len() - i,
    {
        assert(reports@.take(i + 1).drop_last() =~= reports@.take(i as int));
        assert(reports@.take(i + 1).last() == reports@[i as int]);
        let ghost m0 = matching(reports@.take(i as int), q);
        if eq_ignore_ascii_case(reports[i].policy.domain.as_str(), domain) {
            idxs.push(i);
            assert(matching(reports@.take(i + 1), q) =~= m0.push(reports@[i as int]));
        } else {
            assert(matching(reports@.take(i + 1), q) =~= m0);
        }
        i = i + 1;
    }
    assert(reports@.take(reports@.len() as int) =~= reports@);
    let ghost m = matching(reports@, q);
    if idxs.len() == 0 {
        return None;
    }
    proof {
        lemma_matching_bound(reports@, q);
    }
    // The smallest matching domain, and its totals.
    let mut names: Vec<String> = Vec::new();
    let mut k: usize = 0;
    while k < idxs.len()
        invariant
            k <= idxs@.len(),
            idxs@.len() == m.len(),
            forall|j: int| 0 <= j < idxs@.len() ==> #[trigger] idxs@[j] < reports@.len() && reports@[idxs@[j] as int] == m[j],
            views(names@) == report_domains(m.take(k as int)),
        decreases idxs.len() - k,
    {
        let ghost before = views(names@);
        names.push(reports[idxs[k]].policy.domain.clone());
        assert(views(names@) =~= before.push(m[k as int].policy.domain@));
        assert(report_domains(m.take(k + 1)) =~= report_domains(m.take(k as int)).push(m[k as int].policy.domain@));
        k = k + 1;
    }
    assert(m.take(m.len() as int) =~= m);
    let keys = sorted_distinct(&names);
    assert(views(keys@).to_set().contains(views(names@)[0]));
    assert(keys@.len() > 0);
    assert(report_domains(m).contains(keys@[0]@)) by {
        assert(views(keys@).to_set().contains(views(keys@)[0]));
    }
    proof {
        assert forall|j: int| 0 <= j < report_domains(m).len() implies report_domains(reports@).contains(
            #[trigger] report_domains(m)[j],
        ) by {
            assert(reports@.contains(m[j]));
            let t = choose|t: int| 0 <= t < reports@.len() && reports@[t] == m[j];
            assert(report_domains(reports@)[t] == m[j].policy.domain@);
        }
        assert forall|e: Seq<char>| report_domains(m).contains(e) implies !seq_less(e, keys@[0]@) by {
            assert(views(keys@).to_set().contains(e));
            let t = choose|t: int| 0 <= t < views(keys@).len() && views(keys@)[t] == e;
            if t > 0 {
                crate::text::lemma_ascending_pairwise(views(keys@), 0, t);
                crate::text::lemma_seq_less_total(views(keys@)[0], e);
            } else {
                crate::text::lemma_seq_less_irreflexive(e);
            }
        }
    }
    let summary = crate::insights::domain_totals_for(reports, &keys[0]);
    // The effective policy.
    let first = &reports[idxs[0]];
    let mut pol = string_of(first.policy.policy.as_str());
    let mut sub = string_of(first.policy.subdomain_policy.as_str());
    let mut pct: u8 = first.policy.pct;
    let mut k: usize = 0;
    assert(m.take(1).drop_last() =~= m.take(0));
    while k < idxs.len()
        invariant
            1 <= idxs@.len(),
            k <= idxs@.len(),
            idxs@.len() == m.len(),
            forall|j: int| 0 <= j < idxs@.len() ==> #[trigger] idxs@[j] < reports@.len() && reports@[idxs@[j] as int] == m[j],
            *first == m[0],
            k == 0 ==> pol@ == m[0].policy.policy@ && sub@ == m[0].policy.subdomain_policy@ && pct == m[0].policy.pct,
            k > 0 ==> detail_policy(m.take(k as int)) == Some(
                (
                    m[0].policy.domain@,
                    m[0].policy.adkim@,
                    m[0].policy.aspf@,
                    pol@,
                    sub@,
                    pct,
                ),
            ),
        decreases idxs.len() - k,
    {
        let rep = &reports[idxs[k]];
        assert(m.take(k + 1).drop_last() =~= m.take(k as int));
        assert(m.take(k + 1).last() == m[k as int]);
        let p2 = string_of(strongest_policy(pol.as_str(), rep.policy.policy.as_str()));
        if single_policy_strength(rep.policy.subdomain_policy.as_str()) > single_policy_strength(sub.as_str()) {
            sub = string_of(rep.policy.subdomain_policy.as_str());
        }
        if rep.policy.pct < pct {
            pct = rep.policy.pct;
        }
        pol = p2;
        proof {
            if k == 0 {
                assert(m.take(0) =~= Seq::<Report>::empty());
                crate::text::lemma_seq_less_irreflexive(m[0].policy.policy@);
            }
        }
        k = k + 1;
    }
    assert(m.take(m.len() as int) =~= m);
    let policy = DomainPolicyDetail {
        domain: string_of(first.policy.domain.as_str()),
        adkim: string_of(first.policy.adkim.as_str()),
        aspf: string_of(first.policy.aspf.as_str()),
        policy: pol,
        subdomain_policy: sub,
        pct,
    };
    // The sources of the matching reports.
    let sources = ranked_sources(reports, &ReportFilter::DomainLike(domain), usize::MAX);
    // The latest reports.
    let mut keys_begin: Vec<i128> = Vec::new();
    let mut k: usize = 0;
    while k < idxs.len()
        invariant
            k <= idxs@.len(),
            idxs@.len() == m.len(),
            forall|j: int| 0 <= j < idxs@.len() ==> #[trigger] idxs@[j] < reports@.len() && reports@[idxs@[j] as int] == m[j],
            keys_begin@ == begins(m.take(k as int)),
        decreases idxs.len() - k,
    {
        keys_begin.push(reports[idxs[k]].begin as i128);
        assert(begins(m.take(k + 1)) =~= begins(m.take(k as int)).push(m[k as int].begin as i128));
        k = k + 1;
    }
    assert(m.take(m.len() as int) =~= m);
    let order = stable_order_desc(&keys_begin);
    let ghost ord = as_ints(order@);
    let count: usize = if idxs.len() < 12 { idxs.len() } else { 12 };
    let mut recent: Vec<DomainDetailReport> = Vec::new();
    let mut t: usize = 0;
    while t < count
        invariant
            t <= count,
            count <= idxs@.len(),
            idxs@.len() == m.len(),
            forall|j: int| 0 <= j < idxs@.len() ==> #[trigger] idxs@[j] < reports@.len() && reports@[idxs@[j] as int] == m[j],
            ord == as_ints(order@),
            stable_desc_order(begins(m), ord),
            total_messages(reports@) <= u64::MAX,
            forall|j: int| 0 <= j < m.len() ==> reports@.contains(#[trigger] m[j]),
            recent@.len() == t,
            forall|j: int| 0 <= j < t ==> report_row(#[trigger] recent@[j], m[ord[j]]),
        decreases count - t,
    {
        let o = order[t];
        assert(ord[t as int] == o as int);
        let rep = &reports[idxs[o]];
        proof {
            lemma_member_bound(reports@, m[o as int]);
        }
        recent.push(report_row_of(rep));
        t = t + 1;
    }
    let detail = DomainDetail { summary, policy, sources, recent_reports: recent };
    let ghost expected = detail_policy(m)->0;
    assert(detail.policy.pct == expected.5);
    Some(detail)
}

} // verus!

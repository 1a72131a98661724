//! Dashboard aggregates over reports: statistics, per-domain and per-source
//! totals, timeline, policy mix and the grading rules.
use vstd::prelude::*;

use crate::dmarc::{str_eq, Report};
use crate::tally::{
    all_reports, by_domain, distinct_count, lemma_reports_parts_within, lemma_reports_step,
    lemma_reports_total_bound, report_domains, reports_total, tally_reports, total_messages,
    Measure, ReportFilter, by_day, by_policy, day_number, day_of, filter_sel,
};
use crate::text::{
    all_distinct, append, contains, push_char, seq_contains, sorted_distinct, strictly_ascending,
    string_of, views,
};

verus! {

// ---------------------------------------------------------------------------
// Policy strength, grades and labels
// ---------------------------------------------------------------------------

/// Strength of a published policy: reject 3, quarantine 2, none 1, anything else 0.
pub open spec fn strength_of(p: Seq<char>) -> u8 {
    if p == "reject"@ {
        3
    } else if p == "quarantine"@ {
        2
    } else if p == "none"@ {
        1
    } else {
        0
    }
}

/// The stronger of two policies; the left one when neither is stronger.
pub open spec fn stronger_seq(left: Seq<char>, right: Seq<char>) -> Seq<char> {
    if strength_of(right) > strength_of(left) {
        right
    } else {
        left
    }
}

/// Strength of the published policy.
pub fn single_policy_strength(policy: &str) -> (s: u8)
    ensures
        s == strength_of(policy@),
{
    if str_eq(policy, "reject") {
        3
    } else if str_eq(policy, "quarantine") {
        2
    } else if str_eq(policy, "none") {
        1
    } else {
        0
    }
}

/// The stronger of two policies; `left` when `right` is not strictly stronger.
pub fn strongest_policy<'a>(left: &'a str, right: &'a str) -> (r: &'a str)
    ensures
        r@ == stronger_seq(left@, right@),
{
    if single_policy_strength(right) > single_policy_strength(left) {
        right
    } else {
        left
    }
}

/// The greatest policy strength among the reports, 0 when there are none.
pub open spec fn max_strength(reps: Seq<Report>) -> u8
    decreases reps.len(),
{
    if reps.len() == 0 {
        0
    } else {
        let prev = max_strength(reps.drop_last());
        let s = strength_of(reps.last().policy.policy@);
        if s > prev {
            s
        } else {
            prev
        }
    }
}

/// The greatest policy strength among the reports.
pub fn policy_strength(reports: &[Report]) -> (s: u8)
    ensures
        s == max_strength(reports@),
{
    let mut best: u8 = 0;
    let mut i: usize = 0;
    assert(reports@.take(0) =~= Seq::<Report>::empty());
    while i < reports.len()
        invariant
            i <= reports@.len(),
            best == max_strength(reports@.take(i as int)),
        decreases reports.len() - i,
    {
        let s = single_policy_strength(reports[i].policy.policy.as_str());
        assert(reports@.take(i + 1).drop_last() =~= reports@.take(i as int));
        if s > best {
            best = s;
        }
        i = i + 1;
    }
    assert(reports@.take(reports@.len() as int) =~= reports@);
    best
}

/// Name of the enforcement stage that a policy strength reaches.
pub open spec fn stage_seq(strength: u8) -> Seq<char> {
    if strength == 3 {
        "Enforce"@
    } else if strength == 2 {
        "Validate"@
    } else if strength == 1 {
        "Discover"@
    } else {
        "Onboard"@
    }
}

/// The enforcement stage of the strongest policy among the reports.
pub fn enforcement_stage(reports: &[Report]) -> (r: String)
    ensures
        r@ == stage_seq(max_strength(reports@)),
{
    let strength = policy_strength(reports);
    if strength == 3 {
        string_of("Enforce")
    } else if strength == 2 {
        string_of("Validate")
    } else if strength == 1 {
        string_of("Discover")
    } else {
        string_of("Onboard")
    }
}

/// Letter grade of a score.
pub open spec fn grade_seq(score: u8) -> Seq<char> {
    if 90 <= score <= 100 {
        "A"@
    } else if 80 <= score <= 89 {
        "B"@
    } else if 70 <= score <= 79 {
        "C"@
    } else if 60 <= score <= 69 {
        "D"@
    } else {
        "F"@
    }
}

/// Letter grade of a score: A from 90, B from 80, C from 70, D from 60, else F.
pub fn grade(score: u8) -> (r: String)
    ensures
        r@ == grade_seq(score),
{
    if 90 <= score && score <= 100 {
        string_of("A")
    } else if 80 <= score && score <= 89 {
        string_of("B")
    } else if 70 <= score && score <= 79 {
        string_of("C")
    } else if 60 <= score && score <= 69 {
        string_of("D")
    } else {
        string_of("F")
    }
}

/// Posture label of an overall score.
pub open spec fn posture_seq(score: u8) -> Seq<char> {
    if 90 <= score <= 100 {
        "Ready for p=reject"@
    } else if 75 <= score <= 89 {
        "Close to enforcement"@
    } else if 55 <= score <= 74 {
        "Monitoring and remediation"@
    } else {
        "Exposed"@
    }
}

/// Posture label of an overall score.
pub fn posture(score: u8) -> (r: String)
    ensures
        r@ == posture_seq(score),
{
    if 90 <= score && score <= 100 {
        string_of("Ready for p=reject")
    } else if 75 <= score && score <= 89 {
        string_of("Close to enforcement")
    } else if 55 <= score && score <= 74 {
        string_of("Monitoring and remediation")
    } else {
        string_of("Exposed")
    }
}

/// Score from its alignment points (the compliance rate times 0.72, rounded) and the
/// policy strength: 0 without reports, else their sum with ten points per strength
/// level, capped at 100.
pub fn combine_score(alignment_points: u8, policy_strength: u8, report_count: usize) -> (s: u8)
    ensures
        report_count == 0 ==> s == 0,
        report_count != 0 ==> s as int == if alignment_points + 10 * policy_strength < 100 {
            alignment_points + 10 * policy_strength
        } else {
            100
        },
{
    if report_count == 0 {
        return 0;
    }
    let total: u16 = alignment_points as u16 + 10 * (policy_strength as u16);
    if total < 100 {
        total as u8
    } else {
        100
    }
}

/// Where an alignment rate (a percentage) falls among the thresholds that the
/// dashboard uses.
pub enum AlignmentBand {
    /// Below 50%.
    Below50,
    /// From 50% to below 90%.
    Below90,
    /// From 90% to below 98%.
    Below98,
    /// 98% or more.
    AtLeast98,
}

/// Risk label of a source from its message count and alignment band.
pub open spec fn risk_seq(messages: u64, band: AlignmentBand) -> Seq<char> {
    if messages == 0 {
        "unknown"@
    } else {
        match band {
            AlignmentBand::Below50 => "critical"@,
            AlignmentBand::Below90 => "high"@,
            AlignmentBand::Below98 => "medium"@,
            AlignmentBand::AtLeast98 => "low"@,
        }
    }
}

/// Risk label of a source: unknown without messages, else by alignment band.
pub fn risk_label(messages: u64, band: &AlignmentBand) -> (r: String)
    ensures
        r@ == risk_seq(messages, *band),
{
    if messages == 0 {
        string_of("unknown")
    } else {
        match band {
            AlignmentBand::Below50 => string_of("critical"),
            AlignmentBand::Below90 => string_of("high"),
            AlignmentBand::Below98 => string_of("medium"),
            AlignmentBand::AtLeast98 => string_of("low"),
        }
    }
}

/// Status of a protocol from the band of its alignment rate.
pub open spec fn rate_status_seq(band: AlignmentBand) -> Seq<char> {
    match band {
        AlignmentBand::AtLeast98 => "passing"@,
        AlignmentBand::Below98 => "partial"@,
        _ => "needs review"@,
    }
}

/// Status of a protocol: passing from 98%, partial from 90%, else needs review.
pub fn rate_status(band: &AlignmentBand) -> (r: String)
    ensures
        r@ == rate_status_seq(*band),
{
    match band {
        AlignmentBand::AtLeast98 => string_of("passing"),
        AlignmentBand::Below98 => string_of("partial"),
        _ => string_of("needs review"),
    }
}

/// The next step advised for a domain from its strongest policy and whether its
/// alignment reaches 98%.
pub open spec fn next_step_seq(policy: Seq<char>, high_alignment: bool) -> Seq<char> {
    if policy == "reject"@ {
        "Keep monitoring for new senders and alignment drift"@
    } else if policy == "quarantine"@ && high_alignment {
        "Ready to switch from quarantine to reject enforcement"@
    } else if policy == "quarantine"@ {
        "Fix DMARC alignment failures before moving to reject"@
    } else if policy == "none"@ && high_alignment {
        "Start a low-risk quarantine pilot for this domain"@
    } else if policy == "none"@ {
        "Identify legitimate senders and fix SPF/DKIM alignment"@
    } else {
        "Import more reports before deciding the next policy change"@
    }
}

/// The next step advised for a domain.
pub fn next_step(policy: &str, high_alignment: bool) -> (r: String)
    ensures
        r@ == next_step_seq(policy@, high_alignment),
{
    if str_eq(policy, "reject") {
        string_of("Keep monitoring for new senders and alignment drift")
    } else if str_eq(policy, "quarantine") && high_alignment {
        string_of("Ready to switch from quarantine to reject enforcement")
    } else if str_eq(policy, "quarantine") {
        string_of("Fix DMARC alignment failures before moving to reject")
    } else if str_eq(policy, "none") && high_alignment {
        string_of("Start a low-risk quarantine pilot for this domain")
    } else if str_eq(policy, "none") {
        string_of("Identify legitimate senders and fix SPF/DKIM alignment")
    } else {
        string_of("Import more reports before deciding the next policy change")
    }
}

/// Policies rank reject above quarantine above none above anything else, and
/// the stronger of two policies is one of them, never weaker than either.
pub proof fn lemma_policy_order(left: Seq<char>, right: Seq<char>)
    ensures
        strength_of("reject"@) == 3 && strength_of("quarantine"@) == 2 && strength_of("none"@) == 1,
        left != "reject"@ && left != "quarantine"@ && left != "none"@ ==> strength_of(left) == 0,
        stronger_seq(left, right) == left || stronger_seq(left, right) == right,
        strength_of(stronger_seq(left, right)) >= strength_of(left),
        strength_of(stronger_seq(left, right)) >= strength_of(right),
        strength_of(left) == strength_of(right) ==> stronger_seq(left, right) == left,
{
    reveal_strlit("reject");
    reveal_strlit("quarantine");
    reveal_strlit("none");
    assert("quarantine"@[0] != "reject"@[0]);
    assert("none"@[0] != "reject"@[0] && "none"@[0] != "quarantine"@[0]);
}

/// The enforcement stages: Enforce at reject, Validate at quarantine, Discover
/// at none, else Onboard.
pub proof fn lemma_stages()
    ensures
        stage_seq(strength_of("reject"@)) == "Enforce"@,
        stage_seq(strength_of("quarantine"@)) == "Validate"@,
        stage_seq(strength_of("none"@)) == "Discover"@,
        stage_seq(0) == "Onboard"@,
{
    lemma_policy_order("reject"@, "reject"@);
}

/// The posture bands: 90-100 ready for p=reject, 75-89 close to enforcement,
/// 55-74 monitoring and remediation, below 55 exposed.
pub proof fn lemma_posture_bands(score: u8)
    ensures
        90 <= score <= 100 ==> posture_seq(score) == "Ready for p=reject"@,
        75 <= score <= 89 ==> posture_seq(score) == "Close to enforcement"@,
        55 <= score <= 74 ==> posture_seq(score) == "Monitoring and remediation"@,
        score < 55 ==> posture_seq(score) == "Exposed"@,
{
}

/// A protocol passes only from 98% alignment, is partial from 90% and needs
/// review below.
pub proof fn lemma_rate_status(band: AlignmentBand)
    ensures
        band is AtLeast98 ==> rate_status_seq(band) == "passing"@,
        band is Below98 ==> rate_status_seq(band) == "partial"@,
        band is Below90 || band is Below50 ==> rate_status_seq(band) == "needs review"@,
{
}

/// The grade bands: 90-100 is A, 80-89 B, 70-79 C, 60-69 D, anything lower F;
/// the five grades differ, so scores in different bands grade differently.
pub proof fn lemma_grade_bands(score: u8)
    ensures
        90 <= score <= 100 ==> grade_seq(score) == "A"@,
        80 <= score <= 89 ==> grade_seq(score) == "B"@,
        70 <= score <= 79 ==> grade_seq(score) == "C"@,
        60 <= score <= 69 ==> grade_seq(score) == "D"@,
        score < 60 ==> grade_seq(score) == "F"@,
        "A"@ != "B"@ && "A"@ != "C"@ && "A"@ != "D"@ && "A"@ != "F"@ && "B"@ != "C"@ && "B"@
            != "D"@ && "B"@ != "F"@ && "C"@ != "D"@ && "C"@ != "F"@ && "D"@ != "F"@,
{
    reveal_strlit("A");
    reveal_strlit("B");
    reveal_strlit("C");
    reveal_strlit("D");
    reveal_strlit("F");
    assert("A"@[0] != "B"@[0] && "A"@[0] != "C"@[0] && "A"@[0] != "D"@[0] && "A"@[0] != "F"@[0]);
    assert("B"@[0] != "C"@[0] && "B"@[0] != "D"@[0] && "B"@[0] != "F"@[0]);
    assert("C"@[0] != "D"@[0] && "C"@[0] != "F"@[0] && "D"@[0] != "F"@[0]);
}

/// The risk of a source: "unknown" without messages; with messages,
/// "critical" below 50% alignment, "high" below 90%, "medium" below 98% and
/// "low" only from 98%.
pub proof fn lemma_risk_levels(messages: u64, band: AlignmentBand)
    ensures
        messages == 0 ==> risk_seq(messages, band) == "unknown"@,
        messages > 0 && band is Below50 ==> risk_seq(messages, band) == "critical"@,
        messages > 0 && band is Below90 ==> risk_seq(messages, band) == "high"@,
        messages > 0 && band is Below98 ==> risk_seq(messages, band) == "medium"@,
        messages > 0 && band is AtLeast98 ==> risk_seq(messages, band) == "low"@,
        risk_seq(messages, band) == "low"@ ==> messages > 0 && band is AtLeast98,
{
    reveal_strlit("unknown");
    reveal_strlit("critical");
    reveal_strlit("high");
    reveal_strlit("medium");
    reveal_strlit("low");
    assert("unknown"@[0] != "low"@[0]);
    assert("critical"@[0] != "low"@[0]);
    assert("high"@[0] != "low"@[0]);
    assert("medium"@[0] != "low"@[0]);
}

/// The advice for a domain at `p=quarantine`: to switch to reject exactly when
/// its alignment reaches 98%, else to fix alignment failures; and the advice to
/// switch to reject is given for no other domain.
pub proof fn lemma_quarantine_advice(policy: Seq<char>, high_alignment: bool)
    ensures
        policy == "quarantine"@ && high_alignment ==> next_step_seq(policy, high_alignment)
            == "Ready to switch from quarantine to reject enforcement"@,
        policy == "quarantine"@ && !high_alignment ==> next_step_seq(policy, high_alignment)
            == "Fix DMARC alignment failures before moving to reject"@,
        next_step_seq(policy, high_alignment) == "Ready to switch from quarantine to reject enforcement"@
            ==> policy == "quarantine"@ && high_alignment,
        policy == "reject"@ ==> next_step_seq(policy, high_alignment)
            == "Keep monitoring for new senders and alignment drift"@,
        policy == "none"@ && high_alignment ==> next_step_seq(policy, high_alignment)
            == "Start a low-risk quarantine pilot for this domain"@,
        policy == "none"@ && !high_alignment ==> next_step_seq(policy, high_alignment)
            == "Identify legitimate senders and fix SPF/DKIM alignment"@,
{
    reveal_strlit("quarantine");
    reveal_strlit("reject");
    reveal_strlit("none");
    reveal_strlit("Ready to switch from quarantine to reject enforcement");
    reveal_strlit("Fix DMARC alignment failures before moving to reject");
    reveal_strlit("Keep monitoring for new senders and alignment drift");
    reveal_strlit("Start a low-risk quarantine pilot for this domain");
    reveal_strlit("Identify legitimate senders and fix SPF/DKIM alignment");
    reveal_strlit("Import more reports before deciding the next policy change");
    assert("quarantine"@[0] != "reject"@[0]);
    assert("none"@[0] != "reject"@[0] && "none"@[0] != "quarantine"@[0]);
    let ready = "Ready to switch from quarantine to reject enforcement"@;
    assert(ready[0] != "Fix DMARC alignment failures before moving to reject"@[0]);
    assert(ready[0] != "Keep monitoring for new senders and alignment drift"@[0]);
    assert(ready[0] != "Start a low-risk quarantine pilot for this domain"@[0]);
    assert(ready[0] != "Identify legitimate senders and fix SPF/DKIM alignment"@[0]);
    assert(ready[0] != "Import more reports before deciding the next policy change"@[0]);
}

// ---------------------------------------------------------------------------
// Statistics
// ---------------------------------------------------------------------------

/// Counts over all imported reports.
pub struct Statistics {
    pub reports: usize,
    pub domains: usize,
    pub messages: u64,
    pub aligned: u64,
    pub rejected: u64,
    pub quarantined: u64,
}

/// The domains of the reports, one string per report, in order.
pub fn domain_names(reports: &[Report]) -> (names: Vec<String>)
    ensures
        views(names@) == report_domains(reports@),
{
    let mut names: Vec<String> = Vec::new();
    let mut i: usize = 0;
    while i < reports.len()
        invariant
            i <= reports@.len(),
            views(names@) == report_domains(reports@.take(i as int)),
        decreases reports.len() - i,
    {
        names.push(reports[i].policy.domain.clone());
        assert(report_domains(reports@.take(i + 1)) =~= report_domains(reports@.take(i as int)).push(
            reports@[i as int].policy.domain@,
        ));
        assert(views(names@) =~= views(names@.drop_last()).push(names@.last()@));
        i = i + 1;
    }
    assert(reports@.take(reports@.len() as int) =~= reports@);
    names
}

impl Statistics {
    /// Counts over `reports`: how many reports and distinct domains, and how many
    /// messages were sent, aligned, rejected and quarantined.
    pub fn from_reports(reports: &[Report]) -> (s: Statistics)
        requires
            total_messages(reports@) <= u64::MAX,
        ensures
            s.reports == reports@.len(),
            s.domains == report_domains(reports@).to_set().len(),
            s.messages == reports_total(reports@, all_reports(), Measure::Messages, None),
            s.aligned == reports_total(reports@, all_reports(), Measure::Aligned, None),
            s.rejected == reports_total(reports@, all_reports(), Measure::Rejected, None),
            s.quarantined == reports_total(reports@, all_reports(), Measure::Quarantined, None),
    {
        let t = tally_reports(reports, ReportFilter::All, None);
        let names = domain_names(reports);
        let domains = distinct_count(&names);
        Statistics {
            reports: reports.len(),
            domains,
            messages: t.messages,
            aligned: t.aligned,
            rejected: t.rejected,
            quarantined: t.quarantined,
        }
    }
}

// ---------------------------------------------------------------------------
// Per-domain totals
// ---------------------------------------------------------------------------

/// The strongest policy published for domain `d`, the earliest one among equally strong.
pub open spec fn domain_policy(reps: Seq<Report>, d: Seq<char>) -> Option<Seq<char>>
    decreases reps.len(),
{
    if reps.len() == 0 {
        None
    } else {
        let prev = domain_policy(reps.drop_last(), d);
        let r = reps.last();
        if r.policy.domain@ == d {
            Some(
                match prev {
                    Some(p) => stronger_seq(p, r.policy.policy@),
                    None => r.policy.policy@,
                },
            )
        } else {
            prev
        }
    }
}

/// The latest end of the reports of domain `d`.
pub open spec fn domain_last_end(reps: Seq<Report>, d: Seq<char>) -> Option<i64>
    decreases reps.len(),
{
    if reps.len() == 0 {
        None
    } else {
        let prev = domain_last_end(reps.drop_last(), d);
        let r = reps.last();
        if r.policy.domain@ == d {
            Some(
                match prev {
                    Some(e) => if e >= r.end {
                        e
                    } else {
                        r.end
                    },
                    None => r.end,
                },
            )
        } else {
            prev
        }
    }
}

/// The source IPs of some records, in order.
pub open spec fn record_ips(recs: Seq<crate::dmarc::Record>) -> Seq<Seq<char>> {
    recs.map_values(|r: crate::dmarc::Record| r.source_ip@)
}

/// The source IPs of every record of the reports of domain `d`, in order.
pub open spec fn domain_source_list(reps: Seq<Report>, d: Seq<char>) -> Seq<Seq<char>>
    decreases reps.len(),
{
    if reps.len() == 0 {
        seq![]
    } else {
        domain_source_list(reps.drop_last(), d) + if reps.last().policy.domain@ == d {
            record_ips(reps.last().records@)
        } else {
            seq![]
        }
    }
}

/// Totals of one domain.
pub struct DomainTotals {
    pub domain: String,
    pub policy: String,
    pub messages: u64,
    pub aligned: u64,
    pub sources: usize,
    pub last_report: Option<i64>,
}

/// `row` holds the totals of the reports of its domain.
pub open spec fn domain_row(row: DomainTotals, reps: Seq<Report>) -> bool {
    let d = row.domain@;
    &&& domain_policy(reps, d) == Some(row.policy@)
    &&& row.messages == reports_total(reps, by_domain(d), Measure::Messages, None)
    &&& row.aligned == reports_total(reps, by_domain(d), Measure::Aligned, None)
    &&& row.sources == domain_source_list(reps, d).to_set().len()
    &&& row.last_report == domain_last_end(reps, d)
}

/// The domains of some rows, in order.
pub open spec fn row_domains(rows: Seq<DomainTotals>) -> Seq<Seq<char>> {
    rows.map_values(|r: DomainTotals| r.domain@)
}

/// A domain that some report has has a policy.
proof fn lemma_domain_policy_some(reps: Seq<Report>, d: Seq<char>)
    requires
        report_domains(reps).contains(d),
    ensures
        domain_policy(reps, d) is Some,
    decreases reps.len(),
{
    let k = choose|k: int| 0 <= k < reps.len() && report_domains(reps)[k] == d;
    if k < reps.len() - 1 {
        assert(report_domains(reps.drop_last())[k] == d);
        lemma_domain_policy_some(reps.drop_last(), d);
    }
}

/// Appends the source IPs of `recs`.
pub(crate) fn push_ips(ips: &mut Vec<String>, recs: &Vec<crate::dmarc::Record>)
    ensures
        views(final(ips)@) == views(old(ips)@) + record_ips(recs@),
{
    let ghost start = views(ips@);
    let mut j: usize = 0;
    while j < recs.len()
        invariant
            j <= recs@.len(),
            views(ips@) == start + record_ips(recs@.take(j as int)),
        decreases recs.len() - j,
    {
        ips.push(recs[j].source_ip.clone());
        assert(record_ips(recs@.take(j + 1)) =~= record_ips(recs@.take(j as int)).push(recs@[j as int].source_ip@));
        assert(views(ips@) =~= views(ips@.drop_last()).push(ips@.last()@));
        assert(start + record_ips(recs@.take(j + 1)) =~= (start + record_ips(recs@.take(j as int))).push(recs@[j as int].source_ip@));
        j = j + 1;
    }
    assert(recs@.take(recs@.len() as int) =~= recs@);
}

/// The totals of domain `domain`, which some report has.
pub(crate) fn domain_totals_for(reports: &[Report], domain: &String) -> (row: DomainTotals)
    requires
        total_messages(reports@) <= u64::MAX,
        report_domains(reports@).contains(domain@),
    ensures
        row.domain@ == domain@,
        domain_row(row, reports@),
{
    let t = tally_reports(reports, ReportFilter::Domain(domain.as_str()), None);
    let ghost d = domain@;
    let mut policy: Option<String> = None;
    let mut last: Option<i64> = None;
    let mut ips: Vec<String> = Vec::new();
    let mut i: usize = 0;
    assert(reports@.take(0) =~= Seq::<Report>::empty());
    while i < reports.len()
        invariant
            i <= reports@.len(),
            d == domain@,
            domain_policy(reports@.take(i as int), d) == match policy {
                Some(p) => Some(p@),
                None => None::<Seq<char>>,
            },
            domain_last_end(reports@.take(i as int), d) == last,
            views(ips@) == domain_source_list(reports@.take(i as int), d),
        decreases reports.len() - i,
    {
        let rep = &reports[i];
        assert(reports@.take(i + 1).drop_last() =~= reports@.take(i as int));
        assert(reports@.take(i + 1).last() == *rep);
        if str_eq(rep.policy.domain.as_str(), domain.as_str()) {
            let next = match &policy {
                Some(p) => string_of(strongest_policy(p.as_str(), rep.policy.policy.as_str())),
                None => rep.policy.policy.clone(),
            };
            policy = Some(next);
            last = Some(
                match last {
                    Some(e) => if e >= rep.end {
                        e
                    } else {
                        rep.end
                    },
                    None => rep.end,
                },
            );
            push_ips(&mut ips, &rep.records);
        } else {
            assert(views(ips@) =~= views(ips@) + Seq::<Seq<char>>::empty());
        }
        i = i + 1;
    }
    assert(reports@.take(reports@.len() as int) =~= reports@);
    proof {
        lemma_domain_policy_some(reports@, d);
    }
    let policy = match policy {
        Some(p) => p,
        None => String::new(),
    };
    let sources = distinct_count(&ips);
    DomainTotals {
        domain: domain.clone(),
        policy,
        messages: t.messages,
        aligned: t.aligned,
        sources,
        last_report: last,
    }
}

/// One row per distinct domain, in ascending order of domain.
pub fn domains(reports: &[Report]) -> (rows: Vec<DomainTotals>)
    requires
        total_messages(reports@) <= u64::MAX,
    ensures
        strictly_ascending(row_domains(rows@)),
        all_distinct(row_domains(rows@)),
        row_domains(rows@).to_set() == report_domains(reports@).to_set(),
        forall|i: int| 0 <= i < rows@.len() ==> domain_row(#[trigger] rows@[i], reports@),
{
    let names = domain_names(reports);
    let keys = sorted_distinct(&names);
    let mut rows: Vec<DomainTotals> = Vec::new();
    let mut k: usize = 0;
    while k < keys.len()
        invariant
            k <= keys@.len(),
            views(names@) == report_domains(reports@),
            views(keys@).to_set() == views(names@).to_set(),
            total_messages(reports@) <= u64::MAX,
            row_domains(rows@) == views(keys@).take(k as int),
            forall|i: int| 0 <= i < rows@.len() ==> domain_row(#[trigger] rows@[i], reports@),
        decreases keys.len() - k,
    {
        assert(views(keys@).to_set().contains(views(keys@)[k as int]));
        let row = domain_totals_for(reports, &keys[k]);
        let ghost prev = rows@;
        rows.push(row);
        assert(row_domains(rows@) =~= row_domains(prev).push(keys@[k as int]@));
        assert(views(keys@).take(k + 1) =~= views(keys@).take(k as int).push(views(keys@)[k as int]));
        assert(row_domains(rows@) =~= views(keys@).take(k + 1));
        k = k + 1;
    }
    assert(views(keys@).take(keys@.len() as int) =~= views(keys@));
    rows
}

// ---------------------------------------------------------------------------
// Timeline and policy mix
// ---------------------------------------------------------------------------

/// Counts of the reports that begin on one UTC day (days since the Unix epoch).
pub struct TimelinePoint {
    pub day: i64,
    pub messages: u64,
    pub aligned: u64,
    pub rejected: u64,
    pub quarantined: u64,
}

/// The day on which each report begins, in order.
pub open spec fn report_days(reps: Seq<Report>) -> Seq<i64> {
    reps.map_values(|r: Report| day_of(r.begin) as i64)
}

/// The days of some points, in order.
pub open spec fn point_days(points: Seq<TimelinePoint>) -> Seq<i64> {
    points.map_values(|p: TimelinePoint| p.day)
}

/// `p` holds the counts of the reports that begin on its day.
pub open spec fn timeline_point(p: TimelinePoint, reps: Seq<Report>) -> bool {
    &&& p.messages == reports_total(reps, by_day(p.day as int), Measure::Messages, None)
    &&& p.aligned == reports_total(reps, by_day(p.day as int), Measure::Aligned, None)
    &&& p.rejected == reports_total(reps, by_day(p.day as int), Measure::Rejected, None)
    &&& p.quarantined == reports_total(reps, by_day(p.day as int), Measure::Quarantined, None)
}

/// One point per day on which some report begins, in order of day.
pub fn timeline(reports: &[Report]) -> (points: Vec<TimelinePoint>)
    requires
        total_messages(reports@) <= u64::MAX,
    ensures
        crate::order::increasing(point_days(points@)),
        point_days(points@).to_set() == report_days(reports@).to_set(),
        forall|i: int| 0 <= i < points@.len() ==> timeline_point(#[trigger] points@[i], reports@),
{
    let mut days: Vec<i64> = Vec::new();
    let mut i: usize = 0;
    while i < reports.len()
        invariant
            i <= reports@.len(),
            days@ == report_days(reports@.take(i as int)),
        decreases reports.len() - i,
    {
        days.push(day_number(reports[i].begin));
        assert(report_days(reports@.take(i + 1)) =~= report_days(reports@.take(i as int)).push(
            day_of(reports@[i as int].begin) as i64,
        ));
        i = i + 1;
    }
    assert(reports@.take(reports@.len() as int) =~= reports@);
    let keys = crate::order::sorted_distinct_i64(&days);
    let mut points: Vec<TimelinePoint> = Vec::new();
    let mut k: usize = 0;
    while k < keys.len()
        invariant
            k <= keys@.len(),
            total_messages(reports@) <= u64::MAX,
            point_days(points@) == keys@.take(k as int),
            forall|i: int| 0 <= i < points@.len() ==> timeline_point(#[trigger] points@[i], reports@),
        decreases keys.len() - k,
    {
        let day = keys[k];
        let t = tally_reports(reports, ReportFilter::Day(day), None);
        let ghost prev = points@;
        points.push(
            TimelinePoint {
                day,
                messages: t.messages,
                aligned: t.aligned,
                rejected: t.rejected,
                quarantined: t.quarantined,
            },
        );
        assert(point_days(points@) =~= point_days(prev).push(day));
        assert(keys@.take(k + 1) =~= keys@.take(k as int).push(day));
        k = k + 1;
    }
    assert(keys@.take(keys@.len() as int) =~= keys@);
    points
}

/// Messages under one published policy.
pub struct PolicySlice {
    pub policy: String,
    pub messages: u64,
}

/// The policy of each report that has records, in order.
pub open spec fn mix_policies(reps: Seq<Report>) -> Seq<Seq<char>>
    decreases reps.len(),
{
    if reps.len() == 0 {
        seq![]
    } else {
        mix_policies(reps.drop_last()) + if reps.last().records@.len() > 0 {
            seq![reps.last().policy.policy@]
        } else {
            seq![]
        }
    }
}

/// The policies of some slices, in order.
pub open spec fn slice_policies(slices: Seq<PolicySlice>) -> Seq<Seq<char>> {
    slices.map_values(|s: PolicySlice| s.policy@)
}

/// Messages per published policy, one slice per policy of a report that has
/// records, in ascending order of policy.
pub fn policy_mix(reports: &[Report]) -> (slices: Vec<PolicySlice>)
    requires
        total_messages(reports@) <= u64::MAX,
    ensures
        strictly_ascending(slice_policies(slices@)),
        all_distinct(slice_policies(slices@)),
        slice_policies(slices@).to_set() == mix_policies(reports@).to_set(),
        forall|i: int|
            0 <= i < slices@.len() ==> (#[trigger] slices@[i]).messages == reports_total(
                reports@,
                by_policy(slices@[i].policy@),
                Measure::Messages,
                None,
            ),
{
    let mut names: Vec<String> = Vec::new();
    let mut i: usize = 0;
    while i < reports.len()
        invariant
            i <= reports@.len(),
            views(names@) == mix_policies(reports@.take(i as int)),
        decreases reports.len() - i,
    {
        assert(reports@.take(i + 1).drop_last() =~= reports@.take(i as int));
        assert(reports@.take(i + 1).last() == reports@[i as int]);
        let ghost before = views(names@);
        if reports[i].records.len() > 0 {
            names.push(reports[i].policy.policy.clone());
            assert(views(names@) =~= before.push(reports@[i as int].policy.policy@));
            assert(mix_policies(reports@.take(i + 1)) =~= before + seq![reports@[i as int].policy.policy@]);
        } else {
            assert(mix_policies(reports@.take(i + 1)) =~= before);
        }
        i = i + 1;
    }
    assert(reports@.take(reports@.len() as int) =~= reports@);
    let keys = sorted_distinct(&names);
    let mut slices: Vec<PolicySlice> = Vec::new();
    let mut k: usize = 0;
    while k < keys.len()
        invariant
            k <= keys@.len(),
            total_messages(reports@) <= u64::MAX,
            slice_policies(slices@) == views(keys@).take(k as int),
            forall|i: int|
                0 <= i < slices@.len() ==> (#[trigger] slices@[i]).messages == reports_total(
                    reports@,
                    by_policy(slices@[i].policy@),
                    Measure::Messages,
                    None,
                ),
        decreases keys.len() - k,
    {
        let t = tally_reports(reports, ReportFilter::Policy(keys[k].as_str()), None);
        let ghost prev = slices@;
        slices.push(PolicySlice { policy: keys[k].clone(), messages: t.messages });
        assert(slice_policies(slices@) =~= slice_policies(prev).push(keys@[k as int]@));
        assert(views(keys@).take(k + 1) =~= views(keys@).take(k as int).push(views(keys@)[k as int]));
        k = k + 1;
    }
    assert(views(keys@).take(keys@.len() as int) =~= views(keys@));
    slices
}

// ---------------------------------------------------------------------------
// Protocol counts
// ---------------------------------------------------------------------------

/// The domain of each report that publishes policy `p`, in order.
pub open spec fn policy_domains(reps: Seq<Report>, p: Seq<char>) -> Seq<Seq<char>>
    decreases reps.len(),
{
    if reps.len() == 0 {
        seq![]
    } else {
        policy_domains(reps.drop_last(), p) + if reps.last().policy.policy@ == p {
            seq![reps.last().policy.domain@]
        } else {
            seq![]
        }
    }
}

/// The domains of the reports that publish policy `p`, one per report, in order.
pub fn domains_with_policy(reports: &[Report], p: &str) -> (names: Vec<String>)
    ensures
        views(names@) == policy_domains(reports@, p@),
{
    let mut names: Vec<String> = Vec::new();
    let mut i: usize = 0;
    while i < reports.len()
        invariant
            i <= reports@.len(),
            views(names@) == policy_domains(reports@.take(i as int), p@),
        decreases reports.len() - i,
    {
        assert(reports@.take(i + 1).drop_last() =~= reports@.take(i as int));
        assert(reports@.take(i + 1).last() == reports@[i as int]);
        let ghost before = views(names@);
        if str_eq(reports[i].policy.policy.as_str(), p) {
            names.push(reports[i].policy.domain.clone());
            assert(views(names@) =~= before.push(reports@[i as int].policy.domain@));
            assert(policy_domains(reports@.take(i + 1), p@) =~= before + seq![reports@[i as int].policy.domain@]);
        } else {
            assert(policy_domains(reports@.take(i + 1), p@) =~= before);
        }
        i = i + 1;
    }
    assert(reports@.take(reports@.len() as int) =~= reports@);
    names
}

/// What the protocol panels count, apart from rates.
pub struct ProtocolCounts {
    pub has_reports: bool,
    pub dkim_aligned: u64,
    pub spf_aligned: u64,
    pub source_ips: usize,
    pub enforced_domains: usize,
    pub quarantine_domains: usize,
    pub reject_domains: usize,
    pub stage: String,
    pub dmarc_status: String,
    pub enforcement_status: String,
}

/// Status of enforcement: enabled when some domain rejects, validating when some
/// quarantines, else monitoring.
pub open spec fn enforcement_status_seq(reject_domains: nat, quarantine_domains: nat) -> Seq<char> {
    if reject_domains > 0 {
        "enabled"@
    } else if quarantine_domains > 0 {
        "validating"@
    } else {
        "monitoring"@
    }
}

/// Enforcement is "enabled" once any domain rejects, "validating" when some
/// quarantine but none rejects, and "monitoring" otherwise.
pub proof fn lemma_enforcement_status(reject_domains: nat, quarantine_domains: nat)
    ensures
        reject_domains > 0 ==> enforcement_status_seq(reject_domains, quarantine_domains) == "enabled"@,
        reject_domains == 0 && quarantine_domains > 0 ==> enforcement_status_seq(
            reject_domains,
            quarantine_domains,
        ) == "validating"@,
        reject_domains == 0 && quarantine_domains == 0 ==> enforcement_status_seq(
            reject_domains,
            quarantine_domains,
        ) == "monitoring"@,
{
}

/// Counts for the DMARC, SPF, DKIM and enforcement panels.
pub fn protocol_counts(reports: &[Report]) -> (c: ProtocolCounts)
    requires
        total_messages(reports@) <= u64::MAX,
    ensures
        c.has_reports == (reports@.len() > 0),
        c.dkim_aligned == reports_total(reports@, all_reports(), Measure::DkimAligned, None),
        c.spf_aligned == reports_total(reports@, all_reports(), Measure::SpfAligned, None),
        c.source_ips == crate::sources::all_ips(reports@).to_set().len(),
        c.quarantine_domains == policy_domains(reports@, "quarantine"@).to_set().len(),
        c.reject_domains == policy_domains(reports@, "reject"@).to_set().len(),
        c.enforced_domains == (policy_domains(reports@, "quarantine"@) + policy_domains(
            reports@,
            "reject"@,
        )).to_set().len(),
        c.stage@ == stage_seq(max_strength(reports@)),
        c.dmarc_status@ == if reports@.len() > 0 {
            "active"@
        } else {
            "missing"@
        },
        c.enforcement_status@ == enforcement_status_seq(
            c.reject_domains as nat,
            c.quarantine_domains as nat,
        ),
{
    let t = tally_reports(reports, ReportFilter::All, None);
    let ips = crate::sources::ip_list(reports, &ReportFilter::All);
    let source_ips = distinct_count(&ips);
    let quarantine = domains_with_policy(reports, "quarantine");
    let reject = domains_with_policy(reports, "reject");
    let mut enforced: Vec<String> = Vec::new();
    let mut i: usize = 0;
    while i < quarantine.len()
        invariant
            i <= quarantine@.len(),
            views(enforced@) == views(quarantine@).take(i as int),
        decreases quarantine.len() - i,
    {
        let ghost before = views(enforced@);
        enforced.push(quarantine[i].clone());
        assert(views(enforced@) =~= before.push(quarantine@[i as int]@));
        assert(views(enforced@) =~= views(quarantine@).take(i + 1));
        i = i + 1;
    }
    let mut j: usize = 0;
    while j < reject.len()
        invariant
            j <= reject@.len(),
            i == quarantine@.len(),
            views(enforced@) == views(quarantine@) + views(reject@).take(j as int),
        decreases reject.len() - j,
    {
        let ghost before = views(enforced@);
        enforced.push(reject[j].clone());
        assert(views(enforced@) =~= before.push(reject@[j as int]@));
        assert(views(enforced@) =~= views(quarantine@) + views(reject@).take(j + 1));
        j = j + 1;
    }
    assert(views(quarantine@).take(quarantine@.len() as int) =~= views(quarantine@));
    assert(views(reject@).take(reject@.len() as int) =~= views(reject@));
    let enforced_domains = distinct_count(&enforced);
    let quarantine_domains = distinct_count(&quarantine);
    let reject_domains = distinct_count(&reject);
    let enforcement_status = if reject_domains > 0 {
        string_of("enabled")
    } else if quarantine_domains > 0 {
        string_of("validating")
    } else {
        string_of("monitoring")
    };
    ProtocolCounts {
        has_reports: reports.len() > 0,
        dkim_aligned: t.dkim_aligned,
        spf_aligned: t.spf_aligned,
        source_ips,
        enforced_domains,
        quarantine_domains,
        reject_domains,
        stage: enforcement_stage(reports),
        dmarc_status: if reports.len() > 0 {
            string_of("active")
        } else {
            string_of("missing")
        },
        enforcement_status,
    }
}

// ---------------------------------------------------------------------------
// CSV export
// ---------------------------------------------------------------------------

/// Doubles every `"`.
pub open spec fn escape_quotes(v: Seq<char>) -> Seq<char>
    decreases v.len(),
{
    if v.len() == 0 {
        seq![]
    } else {
        escape_quotes(v.drop_last()) + if v.last() == '"' {
            seq!['"', '"']
        } else {
            seq![v.last()]
        }
    }
}

/// A CSV field: quoted, with quotes doubled, when it holds a comma, a quote or a newline.
pub open spec fn csv_cell_seq(v: Seq<char>) -> Seq<char> {
    if seq_contains(v, ","@) || seq_contains(v, "\""@) || seq_contains(v, "\n"@) {
        seq!['"'] + escape_quotes(v) + seq!['"']
    } else {
        v
    }
}

/// A CSV field for `value`.
pub fn csv_cell(value: &str) -> (r: String)
    ensures
        r@ == csv_cell_seq(value@),
{
    if contains(value, ",") || contains(value, "\"") || contains(value, "\n") {
        let v = crate::text::to_chars(value);
        let mut r = String::new();
        push_char(&mut r, '"');
        let mut i: usize = 0;
        while i < v.len()
            invariant
                i <= v@.len(),
                v@ == value@,
                r@ == seq!['"'] + escape_quotes(v@.take(i as int)),
            decreases v.len() - i,
        {
            assert(v@.take(i + 1).drop_last() =~= v@.take(i as int));
            assert(v@.take(i + 1).last() == v@[i as int]);
            let ghost before = r@;
            if v[i] == '"' {
                push_char(&mut r, '"');
                push_char(&mut r, '"');
                assert(r@ =~= before + seq!['"', '"']);
            } else {
                push_char(&mut r, v[i]);
                assert(r@ =~= before + seq![v@[i as int]]);
            }
            assert(r@ =~= seq!['"'] + escape_quotes(v@.take(i + 1)));
            i = i + 1;
        }
        assert(v@.take(v@.len() as int) =~= v@);
        let ghost body = r@;
        push_char(&mut r, '"');
        assert(r@ =~= body + seq!['"']);
        r
    } else {
        string_of(value)
    }
}

/// The header line of the CSV export.
pub open spec fn csv_header() -> Seq<char> {
    "report_id,org_name,domain,begin,end,source_ip,messages,dkim,spf,disposition,header_from,envelope_from\n"@
}

/// The CSV fields of one record of a report.
pub open spec fn csv_fields(rep: Report, rec: crate::dmarc::Record) -> Seq<Seq<char>> {
    seq![
        csv_cell_seq(rep.report_id@),
        csv_cell_seq(rep.org_name@),
        csv_cell_seq(rep.policy.domain@),
        csv_cell_seq(crate::dmarc::instant_text(rep.begin)),
        csv_cell_seq(crate::dmarc::instant_text(rep.end)),
        csv_cell_seq(rec.source_ip@),
        crate::text::decimal_seq(rec.count as nat),
        csv_cell_seq(rec.dkim@),
        csv_cell_seq(rec.spf@),
        csv_cell_seq(rec.disposition@),
        csv_cell_seq(rec.header_from@),
        csv_cell_seq(rec.envelope_from@),
    ]
}

/// The CSV line of one record of a report.
pub open spec fn csv_line(rep: Report, rec: crate::dmarc::Record) -> Seq<char> {
    crate::sources::join_seq(csv_fields(rep, rec), ","@) + "\n"@
}

/// The CSV lines of some records of a report.
pub open spec fn csv_records(rep: Report, recs: Seq<crate::dmarc::Record>) -> Seq<char>
    decreases recs.len(),
{
    if recs.len() == 0 {
        seq![]
    } else {
        csv_records(rep, recs.drop_last()) + csv_line(rep, recs.last())
    }
}

/// The CSV lines of every record of some reports.
pub open spec fn csv_body(reps: Seq<Report>) -> Seq<char>
    decreases reps.len(),
{
    if reps.len() == 0 {
        seq![]
    } else {
        csv_body(reps.drop_last()) + csv_records(reps.last(), reps.last().records@)
    }
}

fn push_field(fields: &mut Vec<String>, f: String)
    ensures
        views(final(fields)@) == views(old(fields)@).push(f@),
{
    let ghost before = views(fields@);
    fields.push(f);
    assert(views(fields@) =~= before.push(f@));
}

fn push_csv_line(out: &mut String, rep: &Report, rec: &crate::dmarc::Record)
    ensures
        final(out)@ == old(out)@ + csv_line(*rep, *rec),
{
    let mut fields: Vec<String> = Vec::new();
    push_field(&mut fields, csv_cell(rep.report_id.as_str()));
    push_field(&mut fields, csv_cell(rep.org_name.as_str()));
    push_field(&mut fields, csv_cell(rep.policy.domain.as_str()));
    push_field(&mut fields, csv_cell(crate::dmarc::instant_rfc3339(rep.begin).as_str()));
    push_field(&mut fields, csv_cell(crate::dmarc::instant_rfc3339(rep.end).as_str()));
    push_field(&mut fields, csv_cell(rec.source_ip.as_str()));
    push_field(&mut fields, crate::text::decimal_u64(rec.count));
    push_field(&mut fields, csv_cell(rec.dkim.as_str()));
    push_field(&mut fields, csv_cell(rec.spf.as_str()));
    push_field(&mut fields, csv_cell(rec.disposition.as_str()));
    push_field(&mut fields, csv_cell(rec.header_from.as_str()));
    push_field(&mut fields, csv_cell(rec.envelope_from.as_str()));
    assert(views(fields@) =~= csv_fields(*rep, *rec));
    let line = crate::sources::join_with(&fields, ",");
    append(out, line.as_str());
    append(out, "\n");
}

/// Every record of every report as CSV, after a header line.
pub fn reports_csv(reports: &[Report]) -> (csv: String)
    ensures
        csv@ == csv_header() + csv_body(reports@),
{
    let mut csv = string_of(
        "report_id,org_name,domain,begin,end,source_ip,messages,dkim,spf,disposition,header_from,envelope_from\n",
    );
    let mut i: usize = 0;
    while i < reports.len()
        invariant
            i <= reports@.len(),
            csv@ == csv_header() + csv_body(reports@.take(i as int)),
        decreases reports.len() - i,
    {
        let rep = &reports[i];
        assert(reports@.take(i + 1).drop_last() =~= reports@.take(i as int));
        assert(reports@.take(i + 1).last() == *rep);
        let ghost mid = csv@;
        let mut j: usize = 0;
        while j < rep.records.len()
            invariant
                j <= rep.records@.len(),
                csv@ == mid + csv_records(*rep, rep.records@.take(j as int)),
            decreases rep.records.len() - j,
        {
            assert(rep.records@.take(j + 1).drop_last() =~= rep.records@.take(j as int));
            assert(rep.records@.take(j + 1).last() == rep.records@[j as int]);
            let ghost before = csv@;
            push_csv_line(&mut csv, rep, &rep.records[j]);
            assert(csv@ =~= mid + csv_records(*rep, rep.records@.take(j + 1)));
            j = j + 1;
        }
        assert(rep.records@.take(rep.records@.len() as int) =~= rep.records@);
        assert(csv@ =~= csv_header() + csv_body(reports@.take(i + 1)));
        i = i + 1;
    }
    assert(reports@.take(reports@.len() as int) =~= reports@);
    csv
}

} // verus!

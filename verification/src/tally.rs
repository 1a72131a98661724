//! Message counts over report records, and their specifications.
use vstd::prelude::*;

use crate::dmarc::{Record, Report};
use crate::text::{all_distinct, sorted_distinct, views};

verus! {

/// What a record contributes to a count.
pub enum Measure {
    /// Every message.
    Messages,
    /// Messages aligned through DKIM or SPF.
    Aligned,
    /// Messages whose disposition was `reject`.
    Rejected,
    /// Messages whose disposition was `quarantine`.
    Quarantined,
    /// Messages aligned through DKIM.
    DkimAligned,
    /// Messages aligned through SPF.
    SpfAligned,
}

/// A record is aligned when DKIM or SPF is aligned.
pub open spec fn is_aligned(r: Record) -> bool {
    r.dkim_aligned || r.spf_aligned
}

/// The messages that a record contributes to measure `m`.
pub open spec fn record_measure(r: Record, m: Measure) -> int {
    let c = r.count as int;
    match m {
        Measure::Messages => c,
        Measure::Aligned => if is_aligned(r) {
            c
        } else {
            0
        },
        Measure::Rejected => if r.disposition@ == "reject"@ {
            c
        } else {
            0
        },
        Measure::Quarantined => if r.disposition@ == "quarantine"@ {
            c
        } else {
            0
        },
        Measure::DkimAligned => if r.dkim_aligned {
            c
        } else {
            0
        },
        Measure::SpfAligned => if r.spf_aligned {
            c
        } else {
            0
        },
    }
}

/// Whether a record counts: all records, or only those from one source IP.
pub open spec fn record_selected(r: Record, ip: Option<Seq<char>>) -> bool {
    match ip {
        Some(s) => r.source_ip@ == s,
        None => true,
    }
}

/// The sum of measure `m` over the selected records.
pub open spec fn records_total(recs: Seq<Record>, m: Measure, ip: Option<Seq<char>>) -> int
    decreases recs.len(),
{
    if recs.len() == 0 {
        0
    } else {
        records_total(recs.drop_last(), m, ip) + if record_selected(recs.last(), ip) {
            record_measure(recs.last(), m)
        } else {
            0
        }
    }
}

/// Every report.
pub open spec fn all_reports() -> spec_fn(Report) -> bool {
    |r: Report| true
}

/// Reports of one domain.
pub open spec fn by_domain(d: Seq<char>) -> spec_fn(Report) -> bool {
    |r: Report| r.policy.domain@ == d
}

/// Reports whose period begins on day `d` (days since the Unix epoch, UTC).
pub open spec fn by_day(d: int) -> spec_fn(Report) -> bool {
    |r: Report| day_of(r.begin) == d
}

/// Reports that publish policy `p`.
pub open spec fn by_policy(p: Seq<char>) -> spec_fn(Report) -> bool {
    |r: Report| r.policy.policy@ == p
}

/// The UTC day, counted from the Unix epoch, of an instant in seconds.
pub open spec fn day_of(secs: i64) -> int {
    secs as int / 86400
}

/// Which reports a count covers.
#[derive(Clone, Copy)]
pub enum ReportFilter<'a> {
    /// All reports.
    All,
    /// Reports of one domain.
    Domain(&'a str),
    /// Reports whose period begins on one day.
    Day(i64),
    /// Reports that publish one policy.
    Policy(&'a str),
    /// Reports of a domain equal to this one up to ASCII case.
    DomainLike(&'a str),
}

/// Reports of a domain equal to `q` up to ASCII case.
pub open spec fn by_domain_like(q: Seq<char>) -> spec_fn(Report) -> bool {
    |r: Report| crate::text::eq_ignore_ascii_case_seq(r.policy.domain@, q)
}

/// The reports that a filter selects.
pub open spec fn filter_sel(f: ReportFilter) -> spec_fn(Report) -> bool {
    match f {
        ReportFilter::All => all_reports(),
        ReportFilter::Domain(d) => by_domain(d@),
        ReportFilter::Day(d) => by_day(d as int),
        ReportFilter::Policy(p) => by_policy(p@),
        ReportFilter::DomainLike(q) => by_domain_like(q@),
    }
}

/// The UTC day of an instant, counted from the Unix epoch.
pub fn day_number(secs: i64) -> (d: i64)
    ensures
        d as int == day_of(secs),
{
    match secs.checked_div_euclid(86400) {
        Some(d) => d,
        None => 0,
    }
}

/// Whether the filter selects `rep`.
pub fn filter_matches(rep: &Report, f: &ReportFilter) -> (b: bool)
    ensures
        b == (filter_sel(*f))(*rep),
{
    match f {
        ReportFilter::All => true,
        ReportFilter::Domain(d) => crate::dmarc::str_eq(rep.policy.domain.as_str(), d),
        ReportFilter::Day(d) => day_number(rep.begin) == *d,
        ReportFilter::Policy(p) => crate::dmarc::str_eq(rep.policy.policy.as_str(), p),
        ReportFilter::DomainLike(q) => crate::text::eq_ignore_ascii_case(rep.policy.domain.as_str(), q),
    }
}

/// The sum of measure `m` over the selected records of the selected reports.
pub open spec fn reports_total(
    reps: Seq<Report>,
    sel: spec_fn(Report) -> bool,
    m: Measure,
    ip: Option<Seq<char>>,
) -> int
    decreases reps.len(),
{
    if reps.len() == 0 {
        0
    } else {
        reports_total(reps.drop_last(), sel, m, ip) + if sel(reps.last()) {
            records_total(reps.last().records@, m, ip)
        } else {
            0
        }
    }
}

/// All messages of all reports.
pub open spec fn total_messages(reps: Seq<Report>) -> int {
    reports_total(reps, all_reports(), Measure::Messages, None)
}

/// Counts of one report, or of one source within it.
pub struct Tally {
    pub messages: u64,
    pub aligned: u64,
    pub rejected: u64,
    pub quarantined: u64,
    pub dkim_aligned: u64,
    pub spf_aligned: u64,
}

/// `t` holds every measure of the selected records.
pub open spec fn tally_of(t: Tally, recs: Seq<Record>, ip: Option<Seq<char>>) -> bool {
    &&& t.messages == records_total(recs, Measure::Messages, ip)
    &&& t.aligned == records_total(recs, Measure::Aligned, ip)
    &&& t.rejected == records_total(recs, Measure::Rejected, ip)
    &&& t.quarantined == records_total(recs, Measure::Quarantined, ip)
    &&& t.dkim_aligned == records_total(recs, Measure::DkimAligned, ip)
    &&& t.spf_aligned == records_total(recs, Measure::SpfAligned, ip)
}

/// `t` holds every measure of the selected records of the selected reports.
pub open spec fn reports_tally_of(
    t: Tally,
    reps: Seq<Report>,
    sel: spec_fn(Report) -> bool,
    ip: Option<Seq<char>>,
) -> bool {
    &&& t.messages == reports_total(reps, sel, Measure::Messages, ip)
    &&& t.aligned == reports_total(reps, sel, Measure::Aligned, ip)
    &&& t.rejected == reports_total(reps, sel, Measure::Rejected, ip)
    &&& t.quarantined == reports_total(reps, sel, Measure::Quarantined, ip)
    &&& t.dkim_aligned == reports_total(reps, sel, Measure::DkimAligned, ip)
    &&& t.spf_aligned == reports_total(reps, sel, Measure::SpfAligned, ip)
}

/// The view of an optional source filter.
pub open spec fn ip_view(ip: Option<&str>) -> Option<Seq<char>> {
    match ip {
        Some(s) => Some(s@),
        None => None,
    }
}

/// The domain of every report, in order.
pub open spec fn report_domains(reps: Seq<Report>) -> Seq<Seq<char>> {
    reps.map_values(|r: Report| r.policy.domain@)
}

// ---------------------------------------------------------------------------
// Lemmas
// ---------------------------------------------------------------------------

/// A count over some records lies between zero and all their messages.
pub proof fn lemma_records_total_bound(recs: Seq<Record>, m: Measure, ip: Option<Seq<char>>)
    ensures
        0 <= records_total(recs, m, ip) <= records_total(recs, Measure::Messages, None),
    decreases recs.len(),
{
    if recs.len() > 0 {
        lemma_records_total_bound(recs.drop_last(), m, ip);
    }
}

/// A count over some reports lies between zero and all their messages.
pub proof fn lemma_reports_total_bound(
    reps: Seq<Report>,
    sel: spec_fn(Report) -> bool,
    m: Measure,
    ip: Option<Seq<char>>,
)
    ensures
        0 <= reports_total(reps, sel, m, ip) <= total_messages(reps),
    decreases reps.len(),
{
    if reps.len() > 0 {
        lemma_reports_total_bound(reps.drop_last(), sel, m, ip);
        lemma_records_total_bound(reps.last().records@, m, ip);
        lemma_records_total_bound(reps.last().records@, Measure::Messages, None);
    }
}

/// The messages of a prefix of the reports are no more than those of all.
pub proof fn lemma_total_prefix(reps: Seq<Report>, i: int)
    requires
        0 <= i <= reps.len(),
    ensures
        total_messages(reps.take(i)) <= total_messages(reps),
    decreases reps.len(),
{
    if i == reps.len() {
        assert(reps.take(i) =~= reps);
    } else {
        assert(reps.drop_last().take(i) =~= reps.take(i));
        lemma_total_prefix(reps.drop_last(), i);
        lemma_records_total_bound(reps.last().records@, Measure::Messages, None);
    }
}

/// One more report adds its own contribution; every count stays within the total.
pub proof fn lemma_reports_step(
    reps: Seq<Report>,
    sel: spec_fn(Report) -> bool,
    m: Measure,
    ip: Option<Seq<char>>,
    i: int,
)
    requires
        0 <= i < reps.len(),
    ensures
        reports_total(reps.take(i + 1), sel, m, ip) == reports_total(reps.take(i), sel, m, ip)
            + if sel(reps[i]) {
            records_total(reps[i].records@, m, ip)
        } else {
            0
        },
        0 <= reports_total(reps.take(i + 1), sel, m, ip) <= total_messages(reps),
        0 <= records_total(reps[i].records@, m, ip),
{
    assert(reps.take(i + 1).drop_last() =~= reps.take(i));
    lemma_reports_total_bound(reps.take(i + 1), sel, m, ip);
    lemma_total_prefix(reps, i + 1);
    lemma_records_total_bound(reps[i].records@, m, ip);
}

/// One more record adds its own contribution.
pub proof fn lemma_records_step(recs: Seq<Record>, m: Measure, ip: Option<Seq<char>>, i: int)
    requires
        0 <= i < recs.len(),
    ensures
        records_total(recs.take(i + 1), m, ip) == records_total(recs.take(i), m, ip) + if record_selected(
            recs[i],
            ip,
        ) {
            record_measure(recs[i], m)
        } else {
            0
        },
        0 <= records_total(recs.take(i + 1), m, ip) <= records_total(
            recs.take(i + 1),
            Measure::Messages,
            None,
        ),
{
    assert(recs.take(i + 1).drop_last() =~= recs.take(i));
    lemma_records_total_bound(recs.take(i + 1), m, ip);
}

/// The records' messages are no more than those of a longer list of records.
proof fn lemma_records_prefix(recs: Seq<Record>, i: int)
    requires
        0 <= i <= recs.len(),
    ensures
        records_total(recs.take(i), Measure::Messages, None) <= records_total(
            recs,
            Measure::Messages,
            None,
        ),
    decreases recs.len(),
{
    if i == recs.len() {
        assert(recs.take(i) =~= recs);
    } else {
        assert(recs.drop_last().take(i) =~= recs.take(i));
        lemma_records_prefix(recs.drop_last(), i);
    }
}

/// A sequence without repeats has as many elements as its set.
pub proof fn lemma_distinct_len<A>(s: Seq<A>)
    requires
        all_distinct(s),
    ensures
        s.to_set().len() == s.len(),
{
    assert(s.no_duplicates());
    s.unique_seq_to_set();
}

// ---------------------------------------------------------------------------
// Executable functions
// ---------------------------------------------------------------------------

/// Every measure of the selected records.
pub fn tally_records(recs: &Vec<Record>, ip: Option<&str>) -> (t: Tally)
    requires
        records_total(recs@, Measure::Messages, None) <= u64::MAX,
    ensures
        tally_of(t, recs@, ip_view(ip)),
{
    let ghost sel = ip_view(ip);
    let mut t = Tally {
        messages: 0,
        aligned: 0,
        rejected: 0,
        quarantined: 0,
        dkim_aligned: 0,
        spf_aligned: 0,
    };
    let mut i: usize = 0;
    assert(recs@.take(0) =~= Seq::<Record>::empty());
    while i < recs.len()
        invariant
            i <= recs@.len(),
            sel == ip_view(ip),
            records_total(recs@, Measure::Messages, None) <= u64::MAX,
            tally_of(t, recs@.take(i as int), sel),
        decreases recs.len() - i,
    {
        let r = &recs[i];
        proof {
            lemma_records_prefix(recs@, i + 1);
            lemma_records_step(recs@, Measure::Messages, sel, i as int);
            lemma_records_step(recs@, Measure::Aligned, sel, i as int);
            lemma_records_step(recs@, Measure::Rejected, sel, i as int);
            lemma_records_step(recs@, Measure::Quarantined, sel, i as int);
            lemma_records_step(recs@, Measure::DkimAligned, sel, i as int);
            lemma_records_step(recs@, Measure::SpfAligned, sel, i as int);
            lemma_records_step(recs@, Measure::Messages, None, i as int);
        }
        let selected = match ip {
            Some(s) => crate::dmarc::str_eq(r.source_ip.as_str(), s),
            None => true,
        };
        if selected {
            let c = r.count;
            t.messages = t.messages + c;
            if r.dkim_aligned || r.spf_aligned {
                t.aligned = t.aligned + c;
            }
            if crate::dmarc::str_eq(r.disposition.as_str(), "reject") {
                t.rejected = t.rejected + c;
            }
            if crate::dmarc::str_eq(r.disposition.as_str(), "quarantine") {
                t.quarantined = t.quarantined + c;
            }
            if r.dkim_aligned {
                t.dkim_aligned = t.dkim_aligned + c;
            }
            if r.spf_aligned {
                t.spf_aligned = t.spf_aligned + c;
            }
        }
        i = i + 1;
    }
    assert(recs@.take(recs@.len() as int) =~= recs@);
    t
}

/// Adds the counts of `b` to `a`.
pub fn add_tally(a: &mut Tally, b: &Tally)
    requires
        old(a).messages + b.messages <= u64::MAX,
        old(a).aligned <= old(a).messages,
        old(a).rejected <= old(a).messages,
        old(a).quarantined <= old(a).messages,
        old(a).dkim_aligned <= old(a).messages,
        old(a).spf_aligned <= old(a).messages,
        b.aligned <= b.messages,
        b.rejected <= b.messages,
        b.quarantined <= b.messages,
        b.dkim_aligned <= b.messages,
        b.spf_aligned <= b.messages,
    ensures
        final(a).messages == old(a).messages + b.messages,
        final(a).aligned == old(a).aligned + b.aligned,
        final(a).rejected == old(a).rejected + b.rejected,
        final(a).quarantined == old(a).quarantined + b.quarantined,
        final(a).dkim_aligned == old(a).dkim_aligned + b.dkim_aligned,
        final(a).spf_aligned == old(a).spf_aligned + b.spf_aligned,
{
    a.messages = a.messages + b.messages;
    a.aligned = a.aligned + b.aligned;
    a.rejected = a.rejected + b.rejected;
    a.quarantined = a.quarantined + b.quarantined;
    a.dkim_aligned = a.dkim_aligned + b.dkim_aligned;
    a.spf_aligned = a.spf_aligned + b.spf_aligned;
}

/// The counts of a tally are each no more than its messages.
pub proof fn lemma_tally_within(t: Tally, recs: Seq<Record>, ip: Option<Seq<char>>)
    requires
        tally_of(t, recs, ip),
    ensures
        t.aligned <= t.messages,
        t.rejected <= t.messages,
        t.quarantined <= t.messages,
        t.dkim_aligned <= t.messages,
        t.spf_aligned <= t.messages,
    decreases recs.len(),
{
    lemma_parts_within(recs, ip);
}

proof fn lemma_parts_within(recs: Seq<Record>, ip: Option<Seq<char>>)
    ensures
        records_total(recs, Measure::Aligned, ip) <= records_total(recs, Measure::Messages, ip),
        records_total(recs, Measure::Rejected, ip) <= records_total(recs, Measure::Messages, ip),
        records_total(recs, Measure::Quarantined, ip) <= records_total(recs, Measure::Messages, ip),
        records_total(recs, Measure::DkimAligned, ip) <= records_total(recs, Measure::Messages, ip),
        records_total(recs, Measure::SpfAligned, ip) <= records_total(recs, Measure::Messages, ip),
    decreases recs.len(),
{
    if recs.len() > 0 {
        lemma_parts_within(recs.drop_last(), ip);
    }
}

/// Reports' counts of each kind are each no more than their messages.
pub proof fn lemma_reports_parts_within(
    reps: Seq<Report>,
    sel: spec_fn(Report) -> bool,
    ip: Option<Seq<char>>,
)
    ensures
        reports_total(reps, sel, Measure::Aligned, ip) <= reports_total(reps, sel, Measure::Messages, ip),
        reports_total(reps, sel, Measure::Rejected, ip) <= reports_total(reps, sel, Measure::Messages, ip),
        reports_total(reps, sel, Measure::Quarantined, ip) <= reports_total(
            reps,
            sel,
            Measure::Messages,
            ip,
        ),
        reports_total(reps, sel, Measure::DkimAligned, ip) <= reports_total(
            reps,
            sel,
            Measure::Messages,
            ip,
        ),
        reports_total(reps, sel, Measure::SpfAligned, ip) <= reports_total(
            reps,
            sel,
            Measure::Messages,
            ip,
        ),
    decreases reps.len(),
{
    if reps.len() > 0 {
        lemma_reports_parts_within(reps.drop_last(), sel, ip);
        lemma_parts_within(reps.last().records@, ip);
    }
}

/// Every measure of the selected records of the reports that `filter` selects.
pub fn tally_reports(reports: &[Report], filter: ReportFilter, ip: Option<&str>) -> (t: Tally)
    requires
        total_messages(reports@) <= u64::MAX,
    ensures
        reports_tally_of(t, reports@, filter_sel(filter), ip_view(ip)),
{
    let ghost sel = filter_sel(filter);
    let ghost ipv = ip_view(ip);
    let mut t = Tally {
        messages: 0,
        aligned: 0,
        rejected: 0,
        quarantined: 0,
        dkim_aligned: 0,
        spf_aligned: 0,
    };
    let mut i: usize = 0;
    assert(reports@.take(0) =~= Seq::<Report>::empty());
    while i < reports.len()
        invariant
            i <= reports@.len(),
            sel == filter_sel(filter),
            ipv == ip_view(ip),
            total_messages(reports@) <= u64::MAX,
            reports_tally_of(t, reports@.take(i as int), sel, ipv),
        decreases reports.len() - i,
    {
        let rep = &reports[i];
        proof {
            lemma_reports_step(reports@, sel, Measure::Messages, ipv, i as int);
            lemma_reports_step(reports@, sel, Measure::Aligned, ipv, i as int);
            lemma_reports_step(reports@, sel, Measure::Rejected, ipv, i as int);
            lemma_reports_step(reports@, sel, Measure::Quarantined, ipv, i as int);
            lemma_reports_step(reports@, sel, Measure::DkimAligned, ipv, i as int);
            lemma_reports_step(reports@, sel, Measure::SpfAligned, ipv, i as int);
            lemma_reports_step(reports@, all_reports(), Measure::Messages, None, i as int);
            lemma_reports_parts_within(reports@.take(i as int), sel, ipv);
        }
        if filter_matches(rep, &filter) {
            proof {
                lemma_reports_total_bound(reports@.take(i as int), all_reports(), Measure::Messages, None);
                assert((all_reports())(reports@[i as int]));
                assert(reports@[i as int] == *rep);
            }
            let part = tally_records(&rep.records, ip);
            proof {
                lemma_tally_within(part, rep.records@, ipv);
            }
            add_tally(&mut t, &part);
        }
        i = i + 1;
    }
    assert(reports@.take(reports@.len() as int) =~= reports@);
    t
}

/// Number of distinct values of `items`.
pub fn distinct_count(items: &Vec<String>) -> (n: usize)
    ensures
        n == views(items@).to_set().len(),
{
    let d = sorted_distinct(items);
    proof {
        lemma_distinct_len(views(d@));
    }
    d.len()
}

} // verus!

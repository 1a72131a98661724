//! The DMARC, SPF, DKIM and enforcement panels of the overview.
use vstd::prelude::*;

use crate::dmarc::Report;
use crate::insights::{
    enforcement_status_seq, protocol_counts, rate_status, rate_status_seq, stage_seq,
    max_strength, AlignmentBand, ProtocolCounts, Statistics,
};
use crate::tally::{all_reports, reports_total, total_messages, Measure};
use crate::text::{append, decimal_seq, decimal_u64, push_decimal, string_of, views};

verus! {

/// One figure of a panel.
pub struct ProtocolMetric {
    pub label: String,
    pub value: String,
}

/// A panel: its status and score, a summary, figures, evidence and advice.
pub struct ProtocolStatus {
    pub name: String,
    pub status: String,
    pub detail: String,
    pub score: u8,
    pub summary: String,
    pub metrics: Vec<ProtocolMetric>,
    pub evidence: Vec<String>,
    pub recommendation: String,
}

/// A figure with its label.
pub fn protocol_metric(label: &str, value: String) -> (m: ProtocolMetric)
    ensures
        m.label@ == label@,
        m.value@ == value@,
{
    ProtocolMetric { label: string_of(label), value }
}

/// What the panels take from percentages, which the caller computes and
/// formats: the rounded scores, the rates written with one decimal and `%`,
/// and the bands of the SPF and DKIM rates.
pub struct ProtocolRates {
    pub dmarc_score: u8,
    pub spf_score: u8,
    pub dkim_score: u8,
    pub enforcement_score: u8,
    pub alignment_text: String,
    pub spf_rate_text: String,
    pub dkim_rate_text: String,
    pub spf_band: AlignmentBand,
    pub dkim_band: AlignmentBand,
}

/// The labels and values of figures.
pub open spec fn metric_views(m: Seq<ProtocolMetric>) -> Seq<(Seq<char>, Seq<char>)> {
    m.map_values(|x: ProtocolMetric| (x.label@, x.value@))
}

/// The plain values of a panel.
pub open spec fn panel(
    p: ProtocolStatus,
    name: Seq<char>,
    status: Seq<char>,
    detail: Seq<char>,
    score: u8,
    summary: Seq<char>,
    metrics: Seq<(Seq<char>, Seq<char>)>,
    evidence: Seq<Seq<char>>,
    recommendation: Seq<char>,
) -> bool {
    &&& p.name@ == name
    &&& p.status@ == status
    &&& p.detail@ == detail
    &&& p.score == score
    &&& p.summary@ == summary
    &&& metric_views(p.metrics@) == metrics
    &&& views(p.evidence@) == evidence
    &&& p.recommendation@ == recommendation
}

/// `a - b`, or 0 when `b` is larger.
pub open spec fn saturating(a: u64, b: u64) -> nat {
    if a >= b {
        (a - b) as nat
    } else {
        0
    }
}

fn new_panel(name: &str, status: String, detail: String, score: u8, summary: &str, metrics: Vec<ProtocolMetric>, evidence: Vec<String>, recommendation: &str) -> (p: ProtocolStatus)
    ensures
        p.name@ == name@,
        p.status@ == status@,
        p.detail@ == detail@,
        p.score == score,
        p.summary@ == summary@,
        p.metrics@ == metrics@,
        p.evidence@ == evidence@,
        p.recommendation@ == recommendation@,
{
    ProtocolStatus {
        name: string_of(name),
        status,
        detail,
        score,
        summary: string_of(summary),
        metrics,
        evidence,
        recommendation: string_of(recommendation),
    }
}

fn counted(n: u64, text: &str) -> (r: String)
    ensures
        r@ == decimal_seq(n as nat) + text@,
{
    let mut r = decimal_u64(n);
    append(&mut r, text);
    r
}

/// The four panels of the overview, from the reports, their statistics and
/// the caller's percentages.
#[verifier::rlimit(50)]
pub fn protocol_statuses(reports: &[Report], statistics: &Statistics, rates: &ProtocolRates) -> (r: Vec<ProtocolStatus>)
    requires
        total_messages(reports@) <= u64::MAX,
    ensures
        r@.len() == 4,
        ({
            let has = reports@.len() > 0;
            let dkim = reports_total(reports@, all_reports(), Measure::DkimAligned, None);
            let spf = reports_total(reports@, all_reports(), Measure::SpfAligned, None);
            let ips = crate::sources::all_ips(reports@).to_set().len();
            let q = crate::insights::policy_domains(reports@, "quarantine"@).to_set().len();
            let rj = crate::insights::policy_domains(reports@, "reject"@).to_set().len();
            let enforced = (crate::insights::policy_domains(reports@, "quarantine"@)
                + crate::insights::policy_domains(reports@, "reject"@)).to_set().len();
            &&& panel(
                r@[0],
                "DMARC"@,
                if has { "active"@ } else { "missing"@ },
                if has {
                    decimal_seq(statistics.reports as nat) + " aggregate reports imported"@
                } else {
                    "Import XML reports to start monitoring"@
                },
                rates.dmarc_score,
                "DMARC alignment inferred from aggregate report policy evaluation."@,
                seq![
                    ("Reports"@, decimal_seq(statistics.reports as nat)),
                    ("Domains"@, decimal_seq(statistics.domains as nat)),
                    ("Messages"@, decimal_seq(statistics.messages as nat)),
                    ("Alignment"@, rates.alignment_text@),
                ],
                seq![
                    decimal_seq(statistics.aligned as nat) + " messages aligned through SPF or DKIM."@,
                    decimal_seq(ips) + " distinct source IPs observed."@,
                ],
                if has {
                    "Keep collecting reports and review sources with low alignment before tightening policy."@
                } else {
                    "Configure rua reporting on each domain and import aggregate XML reports."@
                },
            )
            &&& panel(
                r@[1],
                "SPF"@,
                rate_status_seq(rates.spf_band),
                rates.spf_rate_text@ + " of messages SPF-aligned"@,
                rates.spf_score,
                "SPF coverage based on aligned SPF pass results in DMARC records."@,
                seq![
                    ("SPF aligned"@, decimal_seq(spf as nat)),
                    ("SPF rate"@, rates.spf_rate_text@),
                    ("SPF failures"@, decimal_seq(saturating(statistics.messages, spf as u64))),
                    ("Source IPs"@, decimal_seq(ips)),
                ],
                seq![
                    decimal_seq(spf as nat) + " messages passed SPF alignment."@,
                    "SPF alone can fail when mail is forwarded; DKIM alignment should also be reviewed."@,
                ],
                if rates.spf_band is AtLeast98 {
                    "Maintain SPF records and monitor newly observed sources."@
                } else {
                    "Validate legitimate senders and add or correct SPF includes where alignment is expected."@
                },
            )
            &&& panel(
                r@[2],
                "DKIM"@,
                rate_status_seq(rates.dkim_band),
                rates.dkim_rate_text@ + " of messages DKIM-aligned"@,
                rates.dkim_score,
                "DKIM coverage based on aligned DKIM pass results in DMARC records."@,
                seq![
                    ("DKIM aligned"@, decimal_seq(dkim as nat)),
                    ("DKIM rate"@, rates.dkim_rate_text@),
                    ("DKIM failures"@, decimal_seq(saturating(statistics.messages, dkim as u64))),
                    ("Messages"@, decimal_seq(statistics.messages as nat)),
                ],
                seq![
                    decimal_seq(dkim as nat) + " messages passed DKIM alignment."@,
                    "DKIM is the preferred path for durable alignment across forwarding."@,
                ],
                if rates.dkim_band is AtLeast98 {
                    "Keep DKIM selectors monitored and rotate keys according to policy."@
                } else {
                    "Enable aligned DKIM signing for legitimate platforms that currently fail."@
                },
            )
            &&& panel(
                r@[3],
                "Enforcement"@,
                enforcement_status_seq(rj, q),
                decimal_seq(enforced) + " of "@ + decimal_seq(statistics.domains as nat)
                    + " domains enforce quarantine or reject"@,
                rates.enforcement_score,
                "Policy coverage inferred from published DMARC policy in imported reports."@,
                seq![
                    ("Stage"@, stage_seq(max_strength(reports@))),
                    ("Enforced domains"@, decimal_seq(enforced)),
                    ("Rejected"@, decimal_seq(statistics.rejected as nat)),
                    ("Quarantined"@, decimal_seq(statistics.quarantined as nat)),
                ],
                seq![
                    decimal_seq(q) + " domains use p=quarantine."@,
                    decimal_seq(rj) + " domains use p=reject."@,
                ],
                if rj > 0 {
                    "Monitor drift and keep new sending sources under review."@
                } else if q > 0 {
                    "Move high-alignment domains toward p=reject after reviewing failed sources."@
                } else {
                    "Start with p=quarantine on domains that have consistently high alignment."@
                },
            )
        }),
{
    let c = protocol_counts(reports);
    let has = c.has_reports;
    // DMARC
    let mut m1: Vec<ProtocolMetric> = Vec::new();
    m1.push(protocol_metric("Reports", decimal_u64(statistics.reports as u64)));
    m1.push(protocol_metric("Domains", decimal_u64(statistics.domains as u64)));
    m1.push(protocol_metric("Messages", decimal_u64(statistics.messages)));
    m1.push(protocol_metric("Alignment", string_of(rates.alignment_text.as_str())));
    let mut e1: Vec<String> = Vec::new();
    e1.push(counted(statistics.aligned, " messages aligned through SPF or DKIM."));
    e1.push(counted(c.source_ips as u64, " distinct source IPs observed."));
    assert(metric_views(m1@) =~= seq![
        ("Reports"@, decimal_seq(statistics.reports as nat)),
        ("Domains"@, decimal_seq(statistics.domains as nat)),
        ("Messages"@, decimal_seq(statistics.messages as nat)),
        ("Alignment"@, rates.alignment_text@),
    ]);
    assert(views(e1@) =~= seq![
        decimal_seq(statistics.aligned as nat) + " messages aligned through SPF or DKIM."@,
        decimal_seq(c.source_ips as nat) + " distinct source IPs observed."@,
    ]);
    let dmarc = new_panel(
        "DMARC",
        if has { string_of("active") } else { string_of("missing") },
        if has {
            counted(statistics.reports as u64, " aggregate reports imported")
        } else {
            string_of("Import XML reports to start monitoring")
        },
        rates.dmarc_score,
        "DMARC alignment inferred from aggregate report policy evaluation.",
        m1,
        e1,
        if has {
            "Keep collecting reports and review sources with low alignment before tightening policy."
        } else {
            "Configure rua reporting on each domain and import aggregate XML reports."
        },
    );
    // SPF
    let spf_fail = if statistics.messages >= c.spf_aligned { statistics.messages - c.spf_aligned } else { 0 };
    let mut m2: Vec<ProtocolMetric> = Vec::new();
    m2.push(protocol_metric("SPF aligned", decimal_u64(c.spf_aligned)));
    m2.push(protocol_metric("SPF rate", string_of(rates.spf_rate_text.as_str())));
    m2.push(protocol_metric("SPF failures", decimal_u64(spf_fail)));
    m2.push(protocol_metric("Source IPs", decimal_u64(c.source_ips as u64)));
    let mut e2: Vec<String> = Vec::new();
    e2.push(counted(c.spf_aligned, " messages passed SPF alignment."));
    e2.push(string_of("SPF alone can fail when mail is forwarded; DKIM alignment should also be reviewed."));
    let mut spf_detail = string_of(rates.spf_rate_text.as_str());
    append(&mut spf_detail, " of messages SPF-aligned");
    let spf_full = match rates.spf_band {
        AlignmentBand::AtLeast98 => true,
        _ => false,
    };
    assert(metric_views(m2@) =~= seq![
        ("SPF aligned"@, decimal_seq(c.spf_aligned as nat)),
        ("SPF rate"@, rates.spf_rate_text@),
        ("SPF failures"@, decimal_seq(saturating(statistics.messages, c.spf_aligned))),
        ("Source IPs"@, decimal_seq(c.source_ips as nat)),
    ]);
    assert(views(e2@) =~= seq![
        decimal_seq(c.spf_aligned as nat) + " messages passed SPF alignment."@,
        "SPF alone can fail when mail is forwarded; DKIM alignment should also be reviewed."@,
    ]);
    let spf = new_panel(
        "SPF",
        rate_status(&rates.spf_band),
        spf_detail,
        rates.spf_score,
        "SPF coverage based on aligned SPF pass results in DMARC records.",
        m2,
        e2,
        if spf_full {
            "Maintain SPF records and monitor newly observed sources."
        } else {
            "Validate legitimate senders and add or correct SPF includes where alignment is expected."
        },
    );
    // DKIM
    let dkim_fail = if statistics.messages >= c.dkim_aligned { statistics.messages - c.dkim_aligned } else { 0 };
    let mut m3: Vec<ProtocolMetric> = Vec::new();
    m3.push(protocol_metric("DKIM aligned", decimal_u64(c.dkim_aligned)));
    m3.push(protocol_metric("DKIM rate", string_of(rates.dkim_rate_text.as_str())));
    m3.push(protocol_metric("DKIM failures", decimal_u64(dkim_fail)));
    m3.push(protocol_metric("Messages", decimal_u64(statistics.messages)));
    let mut e3: Vec<String> = Vec::new();
    e3.push(counted(c.dkim_aligned, " messages passed DKIM alignment."));
    e3.push(string_of("DKIM is the preferred path for durable alignment across forwarding."));
    let mut dkim_detail = string_of(rates.dkim_rate_text.as_str());
    append(&mut dkim_detail, " of messages DKIM-aligned");
    let dkim_full = match rates.dkim_band {
        AlignmentBand::AtLeast98 => true,
        _ => false,
    };
    assert(metric_views(m3@) =~= seq![
        ("DKIM aligned"@, decimal_seq(c.dkim_aligned as nat)),
        ("DKIM rate"@, rates.dkim_rate_text@),
        ("DKIM failures"@, decimal_seq(saturating(statistics.messages, c.dkim_aligned))),
        ("Messages"@, decimal_seq(statistics.messages as nat)),
    ]);
    assert(views(e3@) =~= seq![
        decimal_seq(c.dkim_aligned as nat) + " messages passed DKIM alignment."@,
        "DKIM is the preferred path for durable alignment across forwarding."@,
    ]);
    let dkim = new_panel(
        "DKIM",
        rate_status(&rates.dkim_band),
        dkim_detail,
        rates.dkim_score,
        "DKIM coverage based on aligned DKIM pass results in DMARC records.",
        m3,
        e3,
        if dkim_full {
            "Keep DKIM selectors monitored and rotate keys according to policy."
        } else {
            "Enable aligned DKIM signing for legitimate platforms that currently fail."
        },
    );
    // Enforcement
    let mut m4: Vec<ProtocolMetric> = Vec::new();
    m4.push(protocol_metric("Stage", string_of(c.stage.as_str())));
    m4.push(protocol_metric("Enforced domains", decimal_u64(c.enforced_domains as u64)));
    m4.push(protocol_metric("Rejected", decimal_u64(statistics.rejected)));
    m4.push(protocol_metric("Quarantined", decimal_u64(statistics.quarantined)));
    let mut e4: Vec<String> = Vec::new();
    e4.push(counted(c.quarantine_domains as u64, " domains use p=quarantine."));
    e4.push(counted(c.reject_domains as u64, " domains use p=reject."));
    let mut detail = decimal_u64(c.enforced_domains as u64);
    append(&mut detail, " of ");
    push_decimal(&mut detail, statistics.domains as u64);
    append(&mut detail, " domains enforce quarantine or reject");
    assert(metric_views(m4@) =~= seq![
        ("Stage"@, stage_seq(max_strength(reports@))),
        ("Enforced domains"@, decimal_seq(c.enforced_domains as nat)),
        ("Rejected"@, decimal_seq(statistics.rejected as nat)),
        ("Quarantined"@, decimal_seq(statistics.quarantined as nat)),
    ]);
    assert(views(e4@) =~= seq![
        decimal_seq(c.quarantine_domains as nat) + " domains use p=quarantine."@,
        decimal_seq(c.reject_domains as nat) + " domains use p=reject."@,
    ]);
    assert(detail@ =~= decimal_seq(c.enforced_domains as nat) + " of "@ + decimal_seq(statistics.domains as nat)
        + " domains enforce quarantine or reject"@);
    let enforcement = new_panel(
        "Enforcement",
        string_of(c.enforcement_status.as_str()),
        detail,
        rates.enforcement_score,
        "Policy coverage inferred from published DMARC policy in imported reports.",
        m4,
        e4,
        if c.reject_domains > 0 {
            "Monitor drift and keep new sending sources under review."
        } else if c.quarantine_domains > 0 {
            "Move high-alignment domains toward p=reject after reviewing failed sources."
        } else {
            "Start with p=quarantine on domains that have consistently high alignment."
        },
    );
    let mut r: Vec<ProtocolStatus> = Vec::new();
    r.push(dmarc);
    r.push(spf);
    r.push(dkim);
    r.push(enforcement);
    r
}

} // verus!

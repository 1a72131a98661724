//! Per-source-IP totals: who sends, how much, and how well aligned.
use vstd::prelude::*;

use crate::dmarc::{DkimAuth, Record, Report, SpfAuth, str_eq};
use crate::order::{as_ints, stable_desc_order, stable_order_desc};
use crate::tally::{
    all_reports, distinct_count, filter_matches, filter_sel, lemma_reports_parts_within,
    reports_total, tally_reports, total_messages, Measure, ReportFilter,
};
use crate::text::{
    all_distinct, append, contains, lemma_ascending_pairwise, lowercase, seq_contains, seq_less,
    sorted_distinct, strictly_ascending, string_of, to_lowercase, views,
};

verus! {

// ---------------------------------------------------------------------------
// Sender hints and names
// ---------------------------------------------------------------------------

/// The non-empty DKIM domains, in order.
pub open spec fn dkim_hints(ds: Seq<DkimAuth>) -> Seq<Seq<char>>
    decreases ds.len(),
{
    if ds.len() == 0 {
        seq![]
    } else {
        dkim_hints(ds.drop_last()) + if ds.last().domain@.len() > 0 {
            seq![ds.last().domain@]
        } else {
            seq![]
        }
    }
}

/// The non-empty SPF domains, in order.
pub open spec fn spf_hints(ds: Seq<SpfAuth>) -> Seq<Seq<char>>
    decreases ds.len(),
{
    if ds.len() == 0 {
        seq![]
    } else {
        spf_hints(ds.drop_last()) + if ds.last().domain@.len() > 0 {
            seq![ds.last().domain@]
        } else {
            seq![]
        }
    }
}

/// What a record says about who sent it: its non-empty DKIM domains, SPF domains,
/// and envelope sender.
pub open spec fn record_hints(r: Record) -> Seq<Seq<char>> {
    dkim_hints(r.auth_results.dkim@) + spf_hints(r.auth_results.spf@) + if r.envelope_from@.len()
        > 0 {
        seq![r.envelope_from@]
    } else {
        seq![]
    }
}

/// Appends the sender hints of `record`.
pub fn collect_sender_hints(record: &Record, hints: &mut Vec<String>)
    ensures
        views(final(hints)@) == views(old(hints)@) + record_hints(*record),
{
    let ghost start = views(hints@);
    let dk = &record.auth_results.dkim;
    let mut i: usize = 0;
    while i < dk.len()
        invariant
            i <= dk@.len(),
            views(hints@) == start + dkim_hints(dk@.take(i as int)),
        decreases dk.len() - i,
    {
        assert(dk@.take(i + 1).drop_last() =~= dk@.take(i as int));
        assert(dk@.take(i + 1).last() == dk@[i as int]);
        let ghost before = views(hints@);
        if !dk[i].domain.as_str().is_empty() {
            hints.push(dk[i].domain.clone());
            assert(views(hints@) =~= before.push(dk@[i as int].domain@));
            assert(start + dkim_hints(dk@.take(i + 1)) =~= start + dkim_hints(dk@.take(i as int))
                + seq![dk@[i as int].domain@]);
        } else {
            assert(start + dkim_hints(dk@.take(i + 1)) =~= start + dkim_hints(dk@.take(i as int)));
        }
        i = i + 1;
    }
    assert(dk@.take(dk@.len() as int) =~= dk@);
    let ghost mid = views(hints@);
    let sp = &record.auth_results.spf;
    let mut j: usize = 0;
    while j < sp.len()
        invariant
            j <= sp@.len(),
            views(hints@) == mid + spf_hints(sp@.take(j as int)),
        decreases sp.len() - j,
    {
        assert(sp@.take(j + 1).drop_last() =~= sp@.take(j as int));
        assert(sp@.take(j + 1).last() == sp@[j as int]);
        let ghost before = views(hints@);
        if !sp[j].domain.as_str().is_empty() {
            hints.push(sp[j].domain.clone());
            assert(views(hints@) =~= before.push(sp@[j as int].domain@));
            assert(mid + spf_hints(sp@.take(j + 1)) =~= mid + spf_hints(sp@.take(j as int))
                + seq![sp@[j as int].domain@]);
        } else {
            assert(mid + spf_hints(sp@.take(j + 1)) =~= mid + spf_hints(sp@.take(j as int)));
        }
        j = j + 1;
    }
    assert(sp@.take(sp@.len() as int) =~= sp@);
    let ghost last = views(hints@);
    assert(last =~= start + dkim_hints(dk@) + spf_hints(sp@));
    if !record.envelope_from.as_str().is_empty() {
        hints.push(record.envelope_from.clone());
        assert(views(hints@) =~= last.push(record.envelope_from@));
        assert(views(hints@) =~= start + record_hints(*record));
    } else {
        assert(views(hints@) =~= start + record_hints(*record));
    }
}

/// The strings joined with `sep` between them.
pub open spec fn join_seq(list: Seq<Seq<char>>, sep: Seq<char>) -> Seq<char>
    decreases list.len(),
{
    if list.len() == 0 {
        seq![]
    } else if list.len() == 1 {
        list[0]
    } else {
        join_seq(list.drop_last(), sep) + sep + list.last()
    }
}

/// The known sending platforms: a word to look for, and the platform's name.
pub open spec fn known_senders() -> Seq<(Seq<char>, Seq<char>)> {
    seq![
        ("google"@, "Google Workspace"@),
        ("_spf.google"@, "Google Workspace"@),
        ("outlook"@, "Microsoft 365"@),
        ("protection.outlook"@, "Microsoft 365"@),
        ("sendgrid"@, "SendGrid"@),
        ("mailchimp"@, "Mailchimp"@),
        ("amazonses"@, "Amazon SES"@),
        ("amazonaws"@, "Amazon SES"@),
        ("zendesk"@, "Zendesk"@),
        ("salesforce"@, "Salesforce"@),
        ("hubspot"@, "HubSpot"@),
        ("mailgun"@, "Mailgun"@),
        ("postmark"@, "Postmark"@),
        ("brevo"@, "Brevo"@),
        ("sendinblue"@, "Brevo"@),
    ]
}

/// The name of the first known platform, from index `i` on, whose word occurs in `text`.
pub open spec fn first_known(text: Seq<char>, i: int) -> Option<Seq<char>>
    decreases known_senders().len() - i,
{
    if i < 0 || i >= known_senders().len() {
        None
    } else if seq_contains(text, known_senders()[i].0) {
        Some(known_senders()[i].1)
    } else {
        first_known(text, i + 1)
    }
}

/// The sender's name from its hints (in ascending order): the first known platform
/// whose word occurs in the lower-cased, space-joined hints; else the first hint;
/// else "Unknown sender".
pub open spec fn sender_name_seq(hints: Seq<Seq<char>>) -> Seq<char> {
    match first_known(lowercase(join_seq(hints, " "@)), 0) {
        Some(name) => name,
        None => if hints.len() > 0 {
            hints[0]
        } else {
            "Unknown sender"@
        },
    }
}

/// Platforms are recognised by words in the lower-cased hints: "google"
/// names Google Workspace, "outlook" Microsoft 365 and "sendgrid" SendGrid,
/// with the earliest listed platform winning; with no known word the first
/// hint names the sender, and with no hints it is "Unknown sender".
pub proof fn lemma_sender_names(hints: Seq<Seq<char>>)
    ensures
        ({
            let text = lowercase(join_seq(hints, " "@));
            &&& seq_contains(text, "google"@) ==> sender_name_seq(hints) == "Google Workspace"@
            &&& !seq_contains(text, "google"@) && !seq_contains(text, "_spf.google"@) && seq_contains(
                text,
                "outlook"@,
            ) ==> sender_name_seq(hints) == "Microsoft 365"@
            &&& hints.len() == 0 && first_known(text, 0) is None ==> sender_name_seq(hints)
                == "Unknown sender"@
            &&& hints.len() > 0 && first_known(text, 0) is None ==> sender_name_seq(hints) == hints[0]
        }),
{
    let text = lowercase(join_seq(hints, " "@));
    reveal_with_fuel(first_known, 4);
    assert(known_senders()[0] == ("google"@, "Google Workspace"@));
    assert(known_senders()[1] == ("_spf.google"@, "Google Workspace"@));
    assert(known_senders()[2] == ("outlook"@, "Microsoft 365"@));
}

/// The strings joined with `sep` between them.
pub fn join_with(parts: &Vec<String>, sep: &str) -> (r: String)
    ensures
        r@ == join_seq(views(parts@), sep@),
{
    let mut r = String::new();
    let mut i: usize = 0;
    while i < parts.len()
        invariant
            i <= parts@.len(),
            r@ == join_seq(views(parts@).take(i as int), sep@),
        decreases parts.len() - i,
    {
        let ghost prev = views(parts@).take(i as int);
        assert(views(parts@).take(i + 1).drop_last() =~= prev);
        if i > 0 {
            append(&mut r, sep);
        }
        append(&mut r, parts[i].as_str());
        proof {
            if i == 0 {
                assert(views(parts@).take(1) =~= seq![parts@[0]@]);
                assert(r@ =~= parts@[0]@);
            }
        }
        i = i + 1;
    }
    assert(views(parts@).take(parts@.len() as int) =~= views(parts@));
    r
}

/// The name of a sender from its hints, given in ascending order without
/// repeats, as a set of hints holds them.
pub fn sender_name(hints: &Vec<String>) -> (r: String)
    requires
        strictly_ascending(views(hints@)),
    ensures
        r@ == sender_name_seq(views(hints@)),
{
    let text = to_lowercase(join_with(hints, " ").as_str());
    let needles: [&str; 15] = [
        "google",
        "_spf.google",
        "outlook",
        "protection.outlook",
        "sendgrid",
        "mailchimp",
        "amazonses",
        "amazonaws",
        "zendesk",
        "salesforce",
        "hubspot",
        "mailgun",
        "postmark",
        "brevo",
        "sendinblue",
    ];
    let names: [&str; 15] = [
        "Google Workspace",
        "Google Workspace",
        "Microsoft 365",
        "Microsoft 365",
        "SendGrid",
        "Mailchimp",
        "Amazon SES",
        "Amazon SES",
        "Zendesk",
        "Salesforce",
        "HubSpot",
        "Mailgun",
        "Postmark",
        "Brevo",
        "Brevo",
    ];
    proof {
        assert forall|k: int| 0 <= k < 15 implies needles@[k]@ == known_senders()[k].0
            && names@[k]@ == known_senders()[k].1 by {
            if k == 0 {} else if k == 1 {} else if k == 2 {} else if k == 3 {} else if k == 4 {}
            else if k == 5 {} else if k == 6 {} else if k == 7 {} else if k == 8 {} else if k == 9 {}
            else if k == 10 {} else if k == 11 {} else if k == 12 {} else if k == 13 {} else {}
        }
    }
    let mut i: usize = 0;
    assert(known_senders().len() == 15);
    while i < 15
        invariant
            i <= 15,
            known_senders().len() == 15,
            text@ == lowercase(join_seq(views(hints@), " "@)),
            first_known(text@, 0) == first_known(text@, i as int),
            forall|k: int| 0 <= k < 15 ==> needles@[k]@ == known_senders()[k].0 && names@[k]@
                == known_senders()[k].1,
        decreases 15 - i,
    {
        if contains(text.as_str(), needles[i]) {
            assert(needles@[i as int]@ == known_senders()[i as int].0);
            assert(seq_contains(text@, known_senders()[i as int].0));
            assert(first_known(text@, i as int) == Some(known_senders()[i as int].1));
            let r = string_of(names[i]);
            assert(r@ == known_senders()[i as int].1);
            return r;
        }
        i = i + 1;
    }
    if hints.len() > 0 {
        hints[0].clone()
    } else {
        string_of("Unknown sender")
    }
}

// ---------------------------------------------------------------------------
// Per-source totals
// ---------------------------------------------------------------------------

/// The non-empty header-from domains of the records from source `s`, in order.
pub open spec fn record_headers(recs: Seq<Record>, s: Seq<char>) -> Seq<Seq<char>>
    decreases recs.len(),
{
    if recs.len() == 0 {
        seq![]
    } else {
        let r = recs.last();
        record_headers(recs.drop_last(), s) + if r.source_ip@ == s && r.header_from@.len() > 0 {
            seq![r.header_from@]
        } else {
            seq![]
        }
    }
}

/// The sender hints of the records from source `s`, in order.
pub open spec fn records_hints(recs: Seq<Record>, s: Seq<char>) -> Seq<Seq<char>>
    decreases recs.len(),
{
    if recs.len() == 0 {
        seq![]
    } else {
        records_hints(recs.drop_last(), s) + if recs.last().source_ip@ == s {
            record_hints(recs.last())
        } else {
            seq![]
        }
    }
}

/// The non-empty header-from domains of the records from source `s` in all reports.
pub open spec fn source_headers(reps: Seq<Report>, sel: spec_fn(Report) -> bool, s: Seq<char>) -> Seq<Seq<char>>
    decreases reps.len(),
{
    if reps.len() == 0 {
        seq![]
    } else {
        source_headers(reps.drop_last(), sel, s) + if sel(reps.last()) {
            record_headers(reps.last().records@, s)
        } else {
            seq![]
        }
    }
}

/// The sender hints of the records from source `s` in all reports.
pub open spec fn source_hints(reps: Seq<Report>, sel: spec_fn(Report) -> bool, s: Seq<char>) -> Seq<Seq<char>>
    decreases reps.len(),
{
    if reps.len() == 0 {
        seq![]
    } else {
        source_hints(reps.drop_last(), sel, s) + if sel(reps.last()) {
            records_hints(reps.last().records@, s)
        } else {
            seq![]
        }
    }
}

/// The source IP of every record of the selected reports, in order.
pub open spec fn report_ips(reps: Seq<Report>, sel: spec_fn(Report) -> bool) -> Seq<Seq<char>>
    decreases reps.len(),
{
    if reps.len() == 0 {
        seq![]
    } else {
        report_ips(reps.drop_last(), sel) + if sel(reps.last()) {
            crate::insights::record_ips(reps.last().records@)
        } else {
            seq![]
        }
    }
}

/// The source IP of every record of every report, in order.
pub open spec fn all_ips(reps: Seq<Report>) -> Seq<Seq<char>> {
    report_ips(reps, all_reports())
}

/// `v` lists the distinct elements of `items` in ascending order.
pub open spec fn sorted_set_of(v: Seq<Seq<char>>, items: Seq<Seq<char>>) -> bool {
    &&& strictly_ascending(v)
    &&& all_distinct(v)
    &&& v.to_set() == items.to_set()
}

/// Totals of one source IP.
pub struct SourceTotals {
    pub source_ip: String,
    pub sender: String,
    pub messages: u64,
    pub aligned: u64,
    pub rejected: u64,
    pub quarantined: u64,
    pub dkim_aligned: u64,
    pub spf_aligned: u64,
    pub domains: Vec<String>,
}

/// `row` holds the totals of the records from its source IP.
pub open spec fn source_row(row: SourceTotals, reps: Seq<Report>, sel: spec_fn(Report) -> bool) -> bool {
    let s = row.source_ip@;
    &&& row.messages == reports_total(reps, sel, Measure::Messages, Some(s))
    &&& row.aligned == reports_total(reps, sel, Measure::Aligned, Some(s))
    &&& row.rejected == reports_total(reps, sel, Measure::Rejected, Some(s))
    &&& row.quarantined == reports_total(reps, sel, Measure::Quarantined, Some(s))
    &&& row.dkim_aligned == reports_total(reps, sel, Measure::DkimAligned, Some(s))
    &&& row.spf_aligned == reports_total(reps, sel, Measure::SpfAligned, Some(s))
    &&& sorted_set_of(views(row.domains@), source_headers(reps, sel, s))
    &&& exists|hints: Seq<Seq<char>>|
        sorted_set_of(hints, source_hints(reps, sel, s)) && row.sender@ == sender_name_seq(hints)
}

/// Appends what the records from source `ip` say: their header-from domains and hints.
fn push_record_matches(
    recs: &Vec<Record>,
    ip: &String,
    headers: &mut Vec<String>,
    hints: &mut Vec<String>,
)
    ensures
        views(final(headers)@) == views(old(headers)@) + record_headers(recs@, ip@),
        views(final(hints)@) == views(old(hints)@) + records_hints(recs@, ip@),
{
    let ghost h0 = views(headers@);
    let ghost k0 = views(hints@);
    let mut j: usize = 0;
    while j < recs.len()
        invariant
            j <= recs@.len(),
            views(headers@) == h0 + record_headers(recs@.take(j as int), ip@),
            views(hints@) == k0 + records_hints(recs@.take(j as int), ip@),
        decreases recs.len() - j,
    {
        let r = &recs[j];
        assert(recs@.take(j + 1).drop_last() =~= recs@.take(j as int));
        assert(recs@.take(j + 1).last() == *r);
        let ghost hb = views(headers@);
        let ghost kb = views(hints@);
        if str_eq(r.source_ip.as_str(), ip.as_str()) {
            if !r.header_from.as_str().is_empty() {
                headers.push(r.header_from.clone());
                assert(views(headers@) =~= hb.push(r.header_from@));
                assert(h0 + record_headers(recs@.take(j + 1), ip@) =~= hb + seq![r.header_from@]);
            } else {
                assert(h0 + record_headers(recs@.take(j + 1), ip@) =~= hb);
            }
            collect_sender_hints(r, hints);
            assert(k0 + records_hints(recs@.take(j + 1), ip@) =~= kb + record_hints(*r));
        } else {
            assert(h0 + record_headers(recs@.take(j + 1), ip@) =~= hb);
            assert(k0 + records_hints(recs@.take(j + 1), ip@) =~= kb);
        }
        j = j + 1;
    }
    assert(recs@.take(recs@.len() as int) =~= recs@);
}

/// The totals of source IP `ip` over the reports that `filter` selects.
fn source_row_for(reports: &[Report], filter: &ReportFilter, ip: &String) -> (row: SourceTotals)
    requires
        total_messages(reports@) <= u64::MAX,
    ensures
        row.source_ip@ == ip@,
        source_row(row, reports@, filter_sel(*filter)),
{
    let ghost sel = filter_sel(*filter);
    let t = tally_reports(reports, *filter, Some(ip.as_str()));
    let mut headers: Vec<String> = Vec::new();
    let mut hints: Vec<String> = Vec::new();
    let mut i: usize = 0;
    while i < reports.len()
        invariant
            i <= reports@.len(),
            sel == filter_sel(*filter),
            views(headers@) == source_headers(reports@.take(i as int), sel, ip@),
            views(hints@) == source_hints(reports@.take(i as int), sel, ip@),
        decreases reports.len() - i,
    {
        assert(reports@.take(i + 1).drop_last() =~= reports@.take(i as int));
        assert(reports@.take(i + 1).last() == reports@[i as int]);
        let ghost h0 = views(headers@);
        let ghost k0 = views(hints@);
        if filter_matches(&reports[i], filter) {
            push_record_matches(&reports[i].records, ip, &mut headers, &mut hints);
        } else {
            assert(source_headers(reports@.take(i + 1), sel, ip@) =~= h0);
            assert(source_hints(reports@.take(i + 1), sel, ip@) =~= k0);
        }
        i = i + 1;
    }
    assert(reports@.take(reports@.len() as int) =~= reports@);
    let domains = sorted_distinct(&headers);
    let sorted_hints = sorted_distinct(&hints);
    let sender = sender_name(&sorted_hints);
    assert(sorted_set_of(views(sorted_hints@), source_hints(reports@, sel, ip@)));
    SourceTotals {
        source_ip: ip.clone(),
        sender,
        messages: t.messages,
        aligned: t.aligned,
        rejected: t.rejected,
        quarantined: t.quarantined,
        dkim_aligned: t.dkim_aligned,
        spf_aligned: t.spf_aligned,
        domains,
    }
}

/// The source IPs of all records of the reports that `filter` selects, in order.
pub(crate) fn ip_list(reports: &[Report], filter: &ReportFilter) -> (ips: Vec<String>)
    ensures
        views(ips@) == report_ips(reports@, filter_sel(*filter)),
{
    let ghost sel = filter_sel(*filter);
    let mut ips: Vec<String> = Vec::new();
    let mut i: usize = 0;
    while i < reports.len()
        invariant
            i <= reports@.len(),
            sel == filter_sel(*filter),
            views(ips@) == report_ips(reports@.take(i as int), sel),
        decreases reports.len() - i,
    {
        assert(reports@.take(i + 1).drop_last() =~= reports@.take(i as int));
        assert(reports@.take(i + 1).last() == reports@[i as int]);
        let ghost before = views(ips@);
        if filter_matches(&reports[i], filter) {
            crate::insights::push_ips(&mut ips, &reports[i].records);
        } else {
            assert(report_ips(reports@.take(i + 1), sel) =~= before);
        }
        i = i + 1;
    }
    assert(reports@.take(reports@.len() as int) =~= reports@);
    ips
}

/// The source IPs of some rows, in order.
pub open spec fn row_ips(rows: Seq<SourceTotals>) -> Seq<Seq<char>> {
    rows.map_values(|r: SourceTotals| r.source_ip@)
}

/// Row `a` comes before row `b`: more messages, or as many and a smaller IP.
pub open spec fn ranks_before(a_messages: u64, a_ip: Seq<char>, b_messages: u64, b_ip: Seq<char>) -> bool {
    a_messages > b_messages || (a_messages == b_messages && seq_less(a_ip, b_ip))
}

/// The largest number of sources listed.
pub open spec fn max_sources() -> int {
    100
}

/// One row per source IP of the reports that `filter` selects, most messages first
/// (ties by IP), at most `limit` rows.
pub fn ranked_sources(reports: &[Report], filter: &ReportFilter, limit: usize) -> (rows: Vec<SourceTotals>)
    requires
        total_messages(reports@) <= u64::MAX,
        limit > 0,
    ensures
        rows@.len() == if report_ips(reports@, filter_sel(*filter)).to_set().len() < limit as int {
            report_ips(reports@, filter_sel(*filter)).to_set().len() as int
        } else {
            limit as int
        },
        all_distinct(row_ips(rows@)),
        forall|i: int| 0 <= i < rows@.len() ==> report_ips(reports@, filter_sel(*filter)).contains(#[trigger] rows@[i].source_ip@),
        forall|i: int| 0 <= i < rows@.len() ==> source_row(#[trigger] rows@[i], reports@, filter_sel(*filter)),
        forall|i: int, j: int|
            0 <= i < j < rows@.len() ==> ranks_before(
                #[trigger] rows@[i].messages,
                rows@[i].source_ip@,
                #[trigger] rows@[j].messages,
                rows@[j].source_ip@,
            ),
        forall|ip: Seq<char>|
            report_ips(reports@, filter_sel(*filter)).contains(ip) && !row_ips(rows@).contains(ip) ==> ranks_before(
                rows@.last().messages,
                rows@.last().source_ip@,
                reports_total(reports@, filter_sel(*filter), Measure::Messages, Some(ip)) as u64,
                ip,
            ),
{
    let ips = ip_list(reports, filter);
    let keys = sorted_distinct(&ips);
    let ghost kv = views(keys@);
    proof {
        crate::tally::lemma_distinct_len(kv);
    }
    let mut msgs: Vec<i128> = Vec::new();
    let mut k: usize = 0;
    while k < keys.len()
        invariant
            k <= keys@.len(),
            kv == views(keys@),
            total_messages(reports@) <= u64::MAX,
            msgs@.len() == k,
            forall|m: int| 0 <= m < k ==> #[trigger] msgs@[m] == reports_total(
                reports@,
                filter_sel(*filter),
                Measure::Messages,
                Some(kv[m]),
            ),
        decreases keys.len() - k,
    {
        let t = tally_reports(reports, *filter, Some(keys[k].as_str()));
        msgs.push(t.messages as i128);
        k = k + 1;
    }
    let order = stable_order_desc(&msgs);
    let ghost ord = as_ints(order@);
    let count: usize = if keys.len() < limit { keys.len() } else { limit };
    let mut rows: Vec<SourceTotals> = Vec::new();
    let mut t: usize = 0;
    while t < count
        invariant
            t <= count,
            count <= keys@.len(),
            count == if keys@.len() < limit { keys@.len() as int } else { limit as int },
            kv == views(keys@),
            ord == as_ints(order@),
            stable_desc_order(msgs@, ord),
            msgs@.len() == keys@.len(),
            total_messages(reports@) <= u64::MAX,
            forall|m: int| 0 <= m < keys@.len() ==> #[trigger] msgs@[m] == reports_total(
                reports@,
                filter_sel(*filter),
                Measure::Messages,
                Some(kv[m]),
            ),
            rows@.len() == t,
            forall|i: int| 0 <= i < t ==> (#[trigger] rows@[i]).source_ip@ == kv[ord[i]],
            forall|i: int| 0 <= i < t ==> source_row(#[trigger] rows@[i], reports@, filter_sel(*filter)),
        decreases count - t,
    {
        let idx = order[t];
        assert(ord[t as int] == idx as int);
        let row = source_row_for(reports, filter, &keys[idx]);
        rows.push(row);
        t = t + 1;
    }
    proof {
        let n = keys@.len() as int;
        assert(kv.to_set() == report_ips(reports@, filter_sel(*filter)).to_set());
        assert forall|i: int| 0 <= i < rows@.len() implies report_ips(reports@, filter_sel(*filter)).contains(
            #[trigger] rows@[i].source_ip@,
        ) by {
            assert(kv.to_set().contains(kv[ord[i]]));
        }
        assert forall|i: int, j: int|
            0 <= i < rows@.len() && 0 <= j < rows@.len() && i != j implies row_ips(rows@)[i]
            != row_ips(rows@)[j] by {
            assert(ord[i] != ord[j]);
        }
        assert forall|i: int, j: int| 0 <= i < j < rows@.len() implies ranks_before(
            #[trigger] rows@[i].messages,
            rows@[i].source_ip@,
            #[trigger] rows@[j].messages,
            rows@[j].source_ip@,
        ) by {
            assert(msgs@[ord[i]] == rows@[i].messages as int);
            assert(msgs@[ord[j]] == rows@[j].messages as int);
            if msgs@[ord[i]] == msgs@[ord[j]] {
                lemma_ascending_pairwise(kv, ord[i], ord[j]);
            }
        }
        assert forall|ip: Seq<char>|
            report_ips(reports@, filter_sel(*filter)).contains(ip) && !row_ips(rows@).contains(ip) implies ranks_before(
            rows@.last().messages,
            rows@.last().source_ip@,
            reports_total(reports@, filter_sel(*filter), Measure::Messages, Some(ip)) as u64,
            ip,
        ) by {
            assert(report_ips(reports@, filter_sel(*filter)).to_set().contains(ip));
            let m = choose|m: int| 0 <= m < n && kv[m] == ip;
            assert(ord.contains(m));
            let p = choose|p: int| 0 <= p < ord.len() && ord[p] == m;
            if p < rows@.len() {
                assert(row_ips(rows@)[p] == ip);
            }
            assert(n > 0);
            assert(rows@.len() > 0);
            let l = rows@.len() - 1;
            assert(rows@.last() == rows@[l]);
            assert(msgs@[ord[l]] == rows@[l].messages as int);
            crate::tally::lemma_reports_total_bound(reports@, filter_sel(*filter), Measure::Messages, Some(ip));
            assert(msgs@[m] == reports_total(reports@, filter_sel(*filter), Measure::Messages, Some(ip)));
            if msgs@[ord[l]] == msgs@[ord[p]] {
                lemma_ascending_pairwise(kv, ord[l], ord[p]);
            }
        }
    }
    rows
}

/// The busiest sources: one row per source IP, most messages first (ties by IP),
/// at most 100 rows.
pub fn source_insights(reports: &[Report]) -> (rows: Vec<SourceTotals>)
    requires
        total_messages(reports@) <= u64::MAX,
    ensures
        rows@.len() == if all_ips(reports@).to_set().len() < max_sources() {
            all_ips(reports@).to_set().len() as int
        } else {
            max_sources()
        },
        all_distinct(row_ips(rows@)),
        forall|i: int| 0 <= i < rows@.len() ==> all_ips(reports@).contains(#[trigger] rows@[i].source_ip@),
        forall|i: int| 0 <= i < rows@.len() ==> source_row(#[trigger] rows@[i], reports@, all_reports()),
        forall|i: int, j: int|
            0 <= i < j < rows@.len() ==> ranks_before(
                #[trigger] rows@[i].messages,
                rows@[i].source_ip@,
                #[trigger] rows@[j].messages,
                rows@[j].source_ip@,
            ),
        forall|ip: Seq<char>|
            all_ips(reports@).contains(ip) && !row_ips(rows@).contains(ip) ==> ranks_before(
                rows@.last().messages,
                rows@.last().source_ip@,
                reports_total(reports@, all_reports(), Measure::Messages, Some(ip)) as u64,
                ip,
            ),
{
    ranked_sources(reports, &ReportFilter::All, 100)
}

} // verus!

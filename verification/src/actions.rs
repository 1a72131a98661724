//! Action items: what the dashboard advises doing next.
use vstd::prelude::*;

use crate::dmarc::str_eq;
use crate::text::{concat2, decimal_seq, decimal_u64, string_of};

verus! {

/// A domain's alignment, as the rules for action items read it. `rate_text` is its
/// alignment rate written with one decimal; `at_least_98` whether the rate reaches 98%.
pub struct DomainAlignment {
    pub domain: String,
    pub policy: String,
    pub messages: u64,
    pub rate_text: String,
    pub at_least_98: bool,
}

/// A source's alignment, as the rules for action items read it. `rate_text` is its
/// alignment rate written with one decimal; `below_50` and `below_90` compare the rate
/// with 50% and 90%.
pub struct SourceAlignment {
    pub sender: String,
    pub messages: u64,
    pub first_domain: Option<String>,
    pub rate_text: String,
    pub below_50: bool,
    pub below_90: bool,
}

/// Something to do about a domain or a source.
pub struct ActionItem {
    pub severity: String,
    pub title: String,
    pub domain: String,
    pub detail: String,
    pub recommendation: String,
}

/// The content of an item: severity, title, domain, detail, recommendation.
pub type ItemText = (Seq<char>, Seq<char>, Seq<char>, Seq<char>, Seq<char>);

/// The content of an action item.
pub open spec fn item_text(i: ActionItem) -> ItemText {
    (i.severity@, i.title@, i.domain@, i.detail@, i.recommendation@)
}

/// The item for a domain, if its policy is still `none`.
pub open spec fn domain_item(d: DomainAlignment) -> Option<ItemText> {
    if d.policy@ == "none"@ && d.at_least_98 && d.messages > 0 {
        Some(
            (
                "medium"@,
                "Advance policy from monitoring"@,
                d.domain@,
                d.domain@ + " has "@ + d.rate_text@ + "% alignment while still using p=none."@,
                "Move to p=quarantine with pct=25, then increase gradually after reviewing rejected samples."@,
            ),
        )
    } else if d.policy@ == "none"@ {
        Some(
            (
                "high"@,
                "Resolve failures before enforcement"@,
                d.domain@,
                d.domain@ + " alignment is "@ + d.rate_text@ + "% across "@ + decimal_seq(
                    d.messages as nat,
                ) + " messages."@,
                "Fix SPF or DKIM alignment for legitimate senders before changing the DMARC policy."@,
            ),
        )
    } else {
        None
    }
}

/// The item for a source, if it sends messages with less than 90% alignment.
pub open spec fn source_item(s: SourceAlignment) -> Option<ItemText> {
    if s.below_90 && s.messages > 0 {
        Some(
            (
                if s.below_50 {
                    "critical"@
                } else {
                    "high"@
                },
                "Investigate unauthenticated source"@,
                match s.first_domain {
                    Some(d) => d@,
                    None => "unknown"@,
                },
                s.sender@ + " sent "@ + decimal_seq(s.messages as nat) + " messages with "@
                    + s.rate_text@ + "% alignment."@,
                "Confirm whether this sender is legitimate. If yes, configure DKIM signing or SPF alignment; otherwise keep it blocked during enforcement."@,
            ),
        )
    } else {
        None
    }
}

/// The items of the domains, in order.
pub open spec fn domain_items(ds: Seq<DomainAlignment>) -> Seq<ItemText>
    decreases ds.len(),
{
    if ds.len() == 0 {
        seq![]
    } else {
        domain_items(ds.drop_last()) + match domain_item(ds.last()) {
            Some(t) => seq![t],
            None => seq![],
        }
    }
}

/// The items of the sources, in order.
pub open spec fn source_items(ss: Seq<SourceAlignment>) -> Seq<ItemText>
    decreases ss.len(),
{
    if ss.len() == 0 {
        seq![]
    } else {
        source_items(ss.drop_last()) + match source_item(ss.last()) {
            Some(t) => seq![t],
            None => seq![],
        }
    }
}

/// The item given when reports exist and nothing else needs doing.
pub open spec fn maintain_item() -> ItemText {
    (
        "low"@,
        "Maintain enforcement posture"@,
        "all domains"@,
        "No high-risk alignment issues were found in the imported reports."@,
        "Continue importing aggregate reports and watch for new senders or sudden alignment drops."@,
    )
}

/// All items, before the list is cut to its first 20.
pub open spec fn all_items(
    ds: Seq<DomainAlignment>,
    ss: Seq<SourceAlignment>,
    has_reports: bool,
) -> Seq<ItemText> {
    let found = domain_items(ds) + source_items(ss);
    if found.len() == 0 && has_reports {
        seq![maintain_item()]
    } else {
        found
    }
}

/// The most items listed.
pub open spec fn max_items() -> int {
    20
}

fn item(severity: &str, title: &str, domain: String, detail: String, recommendation: &str) -> (i: ActionItem)
    ensures
        item_text(i) == (severity@, title@, domain@, detail@, recommendation@),
{
    ActionItem {
        severity: string_of(severity),
        title: string_of(title),
        domain,
        detail,
        recommendation: string_of(recommendation),
    }
}

fn domain_item_of(d: &DomainAlignment) -> (r: Option<ActionItem>)
    ensures
        match r {
            Some(i) => domain_item(*d) == Some(item_text(i)),
            None => domain_item(*d) is None,
        },
{
    let none = str_eq(d.policy.as_str(), "none");
    if none && d.at_least_98 && d.messages > 0 {
        let mut detail = concat2(d.domain.as_str(), " has ");
        crate::text::append(&mut detail, d.rate_text.as_str());
        crate::text::append(&mut detail, "% alignment while still using p=none.");
        Some(
            item(
                "medium",
                "Advance policy from monitoring",
                d.domain.clone(),
                detail,
                "Move to p=quarantine with pct=25, then increase gradually after reviewing rejected samples.",
            ),
        )
    } else if none {
        let mut detail = concat2(d.domain.as_str(), " alignment is ");
        crate::text::append(&mut detail, d.rate_text.as_str());
        crate::text::append(&mut detail, "% across ");
        crate::text::append(&mut detail, decimal_u64(d.messages).as_str());
        crate::text::append(&mut detail, " messages.");
        Some(
            item(
                "high",
                "Resolve failures before enforcement",
                d.domain.clone(),
                detail,
                "Fix SPF or DKIM alignment for legitimate senders before changing the DMARC policy.",
            ),
        )
    } else {
        None
    }
}

fn source_item_of(s: &SourceAlignment) -> (r: Option<ActionItem>)
    ensures
        match r {
            Some(i) => source_item(*s) == Some(item_text(i)),
            None => source_item(*s) is None,
        },
{
    if s.below_90 && s.messages > 0 {
        let mut detail = concat2(s.sender.as_str(), " sent ");
        crate::text::append(&mut detail, decimal_u64(s.messages).as_str());
        crate::text::append(&mut detail, " messages with ");
        crate::text::append(&mut detail, s.rate_text.as_str());
        crate::text::append(&mut detail, "% alignment.");
        let domain = match &s.first_domain {
            Some(d) => d.clone(),
            None => string_of("unknown"),
        };
        Some(
            item(
                if s.below_50 {
                    "critical"
                } else {
                    "high"
                },
                "Investigate unauthenticated source",
                domain,
                detail,
                "Confirm whether this sender is legitimate. If yes, configure DKIM signing or SPF alignment; otherwise keep it blocked during enforcement.",
            ),
        )
    } else {
        None
    }
}

/// A source gets an item exactly when it sent messages with less than 90%
/// alignment; its severity is "critical" below 50% and "high" otherwise, its
/// title asks to investigate the source, and it names the source's first domain.
pub proof fn lemma_source_item_rules(s: SourceAlignment)
    ensures
        source_item(s) is Some <==> s.below_90 && s.messages > 0,
        s.below_90 && s.messages > 0 && s.below_50 ==> (source_item(s)->0).0 == "critical"@,
        s.below_90 && s.messages > 0 && !s.below_50 ==> (source_item(s)->0).0 == "high"@,
        source_item(s) is Some ==> (source_item(s)->0).1 == "Investigate unauthenticated source"@,
        source_item(s) is Some && s.first_domain is Some ==> (source_item(s)->0).2 == s.first_domain->0@,
{
}

/// A domain still at `p=none` gets an item: "medium", to advance the policy,
/// when it has messages and reaches 98% alignment; otherwise "high", to
/// resolve failures first. Other domains get none.
pub proof fn lemma_domain_item_rules(d: DomainAlignment)
    ensures
        domain_item(d) is Some <==> d.policy@ == "none"@,
        d.policy@ == "none"@ && d.at_least_98 && d.messages > 0 ==> (domain_item(d)->0).0 == "medium"@
            && (domain_item(d)->0).1 == "Advance policy from monitoring"@,
        d.policy@ == "none"@ && !(d.at_least_98 && d.messages > 0) ==> (domain_item(d)->0).0 == "high"@
            && (domain_item(d)->0).1 == "Resolve failures before enforcement"@,
{
}

/// Every item made for a source is "critical" or "high"; none is "medium".
pub proof fn lemma_source_items_severity(ss: Seq<SourceAlignment>)
    ensures
        forall|k: int|
            0 <= k < source_items(ss).len() ==> (#[trigger] source_items(ss)[k]).0 == "critical"@
                || source_items(ss)[k].0 == "high"@,
        forall|k: int| 0 <= k < source_items(ss).len() ==> (#[trigger] source_items(ss)[k]).0 != "medium"@,
    decreases ss.len(),
{
    reveal_strlit("critical");
    reveal_strlit("high");
    reveal_strlit("medium");
    assert("critical"@[0] != "medium"@[0] && "high"@[0] != "medium"@[0]);
    if ss.len() > 0 {
        lemma_source_items_severity(ss.drop_last());
        let prev = source_items(ss.drop_last());
        assert forall|k: int| 0 <= k < source_items(ss).len() implies (#[trigger] source_items(ss)[k]).0
            == "critical"@ || source_items(ss)[k].0 == "high"@ by {
            if k < prev.len() {
                assert(source_items(ss)[k] == prev[k]);
            }
        }
    }
}

/// With no domains to advise on, each source below 90% alignment gives one
/// item, in order: the list for one such source is that source's item alone,
/// with severity "critical" below 50% and "high" otherwise.
pub proof fn lemma_one_source_items(s: SourceAlignment, has_reports: bool)
    requires
        s.below_90,
        s.messages > 0,
    ensures
        all_items(seq![], seq![s], has_reports).len() == 1,
        all_items(seq![], seq![s], has_reports)[0].0 == (if s.below_50 {
            "critical"@
        } else {
            "high"@
        }),
        all_items(seq![], seq![s], has_reports)[0].1 == "Investigate unauthenticated source"@,
{
    let ss = seq![s];
    assert(ss.drop_last() =~= Seq::<SourceAlignment>::empty());
    assert(ss.last() == s);
    assert(domain_items(Seq::<DomainAlignment>::empty()) =~= Seq::<ItemText>::empty());
    assert(source_items(ss.drop_last()) =~= Seq::<ItemText>::empty());
    assert(source_item(s) is Some);
    assert(source_items(ss) =~= Seq::<ItemText>::empty() + seq![source_item(s)->0]);
    assert(source_items(ss) =~= seq![source_item(s)->0]);
    assert(domain_items(Seq::<DomainAlignment>::empty()) + source_items(ss) =~= seq![source_item(s)->0]);
}

/// The texts of some items, in order.
pub open spec fn item_texts(items: Seq<ActionItem>) -> Seq<ItemText> {
    items.map_values(|i: ActionItem| item_text(i))
}

/// The action items: one per domain still at `p=none`, one per source below 90%
/// alignment, or else, when there are reports, one advising to keep going; at most 20.
pub fn action_items(
    domains: &[DomainAlignment],
    sources: &[SourceAlignment],
    has_reports: bool,
) -> (items: Vec<ActionItem>)
    ensures
        item_texts(items@) == all_items(domains@, sources@, has_reports).take(
            if all_items(domains@, sources@, has_reports).len() < max_items() {
                all_items(domains@, sources@, has_reports).len() as int
            } else {
                max_items()
            },
        ),
{
    let mut items: Vec<ActionItem> = Vec::new();
    let mut i: usize = 0;
    while i < domains.len()
        invariant
            i <= domains@.len(),
            item_texts(items@) == domain_items(domains@.take(i as int)),
        decreases domains.len() - i,
    {
        assert(domains@.take(i + 1).drop_last() =~= domains@.take(i as int));
        assert(domains@.take(i + 1).last() == domains@[i as int]);
        let ghost before = item_texts(items@);
        match domain_item_of(&domains[i]) {
            Some(it) => {
                items.push(it);
                assert(item_texts(items@) =~= before.push(item_text(items@.last())));
                assert(domain_items(domains@.take(i + 1)) =~= before + seq![item_text(items@.last())]);
            },
            None => {
                assert(domain_items(domains@.take(i + 1)) =~= before);
            },
        }
        i = i + 1;
    }
    assert(domains@.take(domains@.len() as int) =~= domains@);
    let ghost from_domains = item_texts(items@);
    let mut j: usize = 0;
    while j < sources.len()
        invariant
            j <= sources@.len(),
            from_domains == domain_items(domains@),
            item_texts(items@) == from_domains + source_items(sources@.take(j as int)),
        decreases sources.len() - j,
    {
        assert(sources@.take(j + 1).drop_last() =~= sources@.take(j as int));
        assert(sources@.take(j + 1).last() == sources@[j as int]);
        let ghost before = item_texts(items@);
        match source_item_of(&sources[j]) {
            Some(it) => {
                items.push(it);
                assert(item_texts(items@) =~= before.push(item_text(items@.last())));
                assert(from_domains + source_items(sources@.take(j + 1)) =~= before + seq![item_text(items@.last())]);
            },
            None => {
                assert(from_domains + source_items(sources@.take(j + 1)) =~= before);
            },
        }
        j = j + 1;
    }
    assert(sources@.take(sources@.len() as int) =~= sources@);
    if items.len() == 0 && has_reports {
        items.push(
            item(
                "low",
                "Maintain enforcement posture",
                string_of("all domains"),
                string_of("No high-risk alignment issues were found in the imported reports."),
                "Continue importing aggregate reports and watch for new senders or sudden alignment drops.",
            ),
        );
        assert(item_texts(items@) =~= seq![maintain_item()]);
    }
    let ghost full = item_texts(items@);
    assert(full == all_items(domains@, sources@, has_reports));
    items.truncate(20);
    assert(item_texts(items@) =~= full.take(if full.len() < 20 { full.len() as int } else { 20 }));
    items
}

} // verus!

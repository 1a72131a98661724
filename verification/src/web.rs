//! Decisions of the web front: which paths need no session, the usernames of
//! provisioned users, report summaries, and where failed sign-ons return.
use vstd::prelude::*;

use crate::dmarc::{str_eq, Report};
use crate::scan::{split_char, split_on};
use crate::tally::{records_total, tally_records, Measure};
use crate::text::{append, concat2, from_chars, push_char, seq_starts_with, starts_with, string_of, to_chars};

verus! {

/// Paths served without a session: the sign-in page, the health check, the
/// static assets and the sign-in endpoints.
pub open spec fn public_path(path: Seq<char>) -> bool {
    ||| path == "/login"@
    ||| path == "/healthz"@
    ||| seq_starts_with(path, "/assets/"@)
    ||| path == "/api/auth/login"@
    ||| path == "/api/auth/providers"@
    ||| path == "/api/auth/oidc/login"@
    ||| path == "/api/auth/oidc/callback"@
}

/// Whether `path` is served without a session; see `public_path`.
pub fn is_public_path(path: &str) -> (b: bool)
    ensures
        b == public_path(path@),
{
    str_eq(path, "/login") || str_eq(path, "/healthz") || starts_with(path, "/assets/") || str_eq(
        path,
        "/api/auth/login",
    ) || str_eq(path, "/api/auth/providers") || str_eq(path, "/api/auth/oidc/login") || str_eq(
        path,
        "/api/auth/oidc/callback",
    )
}

/// Where a failed sign-on sends the browser.
pub fn login_error_target(code: &str) -> (r: String)
    ensures
        r@ == "/login?error="@ + code@,
{
    concat2("/login?error=", code)
}

/// A character that usernames keep: ASCII letters and digits, `.`, `_` and `-`.
pub open spec fn username_char(c: char) -> bool {
    ('a' <= c <= 'z') || ('A' <= c <= 'Z') || ('0' <= c <= '9') || c == '.' || c == '_' || c == '-'
}

/// Other characters become `-`.
pub open spec fn username_chars(s: Seq<char>) -> Seq<char> {
    s.map_values(|c: char| if username_char(c) { c } else { '-' })
}

/// `s` without leading and trailing `-`.
pub open spec fn trim_dashes(s: Seq<char>) -> Seq<char>
    decreases s.len(),
{
    if s.len() > 0 && s[0] == '-' {
        trim_dashes(s.drop_first())
    } else if s.len() > 0 && s.last() == '-' {
        trim_dashes(s.drop_last())
    } else {
        s
    }
}

/// The username of a user provisioned by single sign-on: the preferred
/// username (else the part of the email before `@`) with other characters
/// made `-` and outer dashes removed (`user` when nothing is left), then a
/// dash and the first six characters of the subject.
pub open spec fn oidc_username_seq(preferred: Option<Seq<char>>, email: Seq<char>, subject: Seq<char>) -> Seq<char> {
    let p = match preferred {
        Some(v) => v,
        None => split_on(email, '@')[0],
    };
    let cleaned = trim_dashes(username_chars(p));
    let base = if cleaned.len() == 0 {
        "user"@
    } else {
        cleaned
    };
    base + "-"@ + subject.take(if subject.len() < 6 {
        subject.len() as int
    } else {
        6
    })
}

proof fn lemma_trim_dashes_inner(s: Seq<char>, i: int, j: int)
    requires
        0 <= i <= j <= s.len(),
        forall|k: int| 0 <= k < i ==> s[k] == '-',
        forall|k: int| j <= k < s.len() ==> s[k] == '-',
        i < j ==> s[i] != '-' && s[j - 1] != '-',
    ensures
        trim_dashes(s) == s.subrange(i, j),
    decreases s.len(),
{
    if s.len() == 0 {
        assert(s.subrange(i, j) =~= s);
    } else if s[0] == '-' {
        if i == 0 {
            assert(j == 0);
            assert forall|k: int| 0 <= k < s.drop_first().len() implies s.drop_first()[k] == '-' by {
                assert(s.drop_first()[k] == s[k + 1]);
            }
            lemma_trim_dashes_inner(s.drop_first(), 0, 0);
            assert(s.subrange(0, 0) =~= s.drop_first().subrange(0, 0));
        } else {
            assert forall|k: int| 0 <= k < i - 1 implies s.drop_first()[k] == '-' by {
                assert(s.drop_first()[k] == s[k + 1]);
            }
            assert forall|k: int| j - 1 <= k < s.drop_first().len() implies s.drop_first()[k] == '-' by {
                assert(s.drop_first()[k] == s[k + 1]);
            }
            lemma_trim_dashes_inner(s.drop_first(), i - 1, j - 1);
            assert(s.drop_first().subrange(i - 1, j - 1) =~= s.subrange(i, j));
        }
    } else if s.last() == '-' {
        assert(i == 0);
        assert(j < s.len());
        assert forall|k: int| j <= k < s.drop_last().len() implies s.drop_last()[k] == '-' by {}
        lemma_trim_dashes_inner(s.drop_last(), i, j);
        assert(s.drop_last().subrange(i, j) =~= s.subrange(i, j));
    } else {
        assert(i == 0 && j == s.len());
        assert(s.subrange(0, s.len() as int) =~= s);
    }
}

/// The username of a user provisioned by single sign-on; see `oidc_username_seq`.
pub fn oidc_username(preferred: Option<&str>, email: &str, subject: &str) -> (r: String)
    ensures
        r@ == oidc_username_seq(crate::oidc::opt_view(preferred), email@, subject@),
{
    let p: String = match preferred {
        Some(v) => string_of(v),
        None => {
            let pieces = split_char(email, '@');
            proof {
                crate::scan::lemma_split_nonempty(email@, '@');
            }
            let first = string_of(pieces[0].as_str());
            assert(crate::text::views(pieces@)[0] == pieces@[0]@);
            first
        },
    };
    let ghost pv = match crate::oidc::opt_view(preferred) {
        Some(x) => x,
        None => split_on(email@, '@')[0],
    };
    assert(p@ == pv);
    let v = to_chars(p.as_str());
    let mut mapped: Vec<char> = Vec::new();
    let mut i: usize = 0;
    while i < v.len()
        invariant
            i <= v@.len(),
            mapped@ == username_chars(v@).take(i as int),
        decreases v.len() - i,
    {
        let c = v[i];
        let keep = ('a' <= c && c <= 'z') || ('A' <= c && c <= 'Z') || ('0' <= c && c <= '9') || c
            == '.' || c == '_' || c == '-';
        mapped.push(if keep { c } else { '-' });
        assert(mapped@ =~= username_chars(v@).take(i + 1));
        i = i + 1;
    }
    assert(mapped@ =~= username_chars(v@));
    let ghost m = mapped@;
    let mut start: usize = 0;
    while start < mapped.len() && mapped[start] == '-'
        invariant
            start <= m.len(),
            m == mapped@,
            forall|k: int| 0 <= k < start ==> m[k] == '-',
        decreases mapped.len() - start,
    {
        start = start + 1;
    }
    let mut end: usize = mapped.len();
    while end > start && mapped[end - 1] == '-'
        invariant
            start <= end <= m.len(),
            m == mapped@,
            forall|k: int| end <= k < m.len() ==> m[k] == '-',
        decreases end - start,
    {
        end = end - 1;
    }
    proof {
        lemma_trim_dashes_inner(m, start as int, end as int);
    }
    let cleaned = from_chars(&mapped.as_slice()[start..end]);
    assert(cleaned@ =~= m.subrange(start as int, end as int));
    let ghost cleaned_spec = trim_dashes(username_chars(pv));
    assert(cleaned@ == cleaned_spec);
    let mut out = if cleaned.as_str().is_empty() {
        string_of("user")
    } else {
        cleaned
    };
    push_char(&mut out, '-');
    let sv = to_chars(subject);
    let n = if sv.len() < 6 {
        sv.len()
    } else {
        6
    };
    let mut k: usize = 0;
    let ghost base = out@;
    while k < n
        invariant
            k <= n,
            n <= sv@.len(),
            out@ == base + sv@.take(k as int),
        decreases n - k,
    {
        push_char(&mut out, sv[k]);
        assert(sv@.take(k + 1) =~= sv@.take(k as int).push(sv@[k as int]));
        k = k + 1;
    }
    proof {
        reveal_strlit("-");
    }
    assert(sv@.take(n as int) == subject@.take(if subject@.len() < 6 { subject@.len() as int } else { 6 }));
    assert(out@ =~= oidc_username_seq(crate::oidc::opt_view(preferred), email@, subject@));
    out
}

/// A row of the report list. `begin` and `end` are seconds since the Unix epoch.
pub struct ReportSummary {
    pub id: String,
    pub org_name: String,
    pub report_id: String,
    pub domain: String,
    pub begin: i64,
    pub end: i64,
    pub messages: u64,
    pub aligned: u64,
    pub rejected: u64,
    pub quarantined: u64,
}

impl ReportSummary {
    /// The row of a report: its identity and the totals of its records.
    pub fn from_report(report: &Report) -> (s: ReportSummary)
        requires
            records_total(report.records@, Measure::Messages, None) <= u64::MAX,
        ensures
            s.id@ == report.id@,
            s.org_name@ == report.org_name@,
            s.report_id@ == report.report_id@,
            s.domain@ == report.policy.domain@,
            s.begin == report.begin,
            s.end == report.end,
            s.messages == records_total(report.records@, Measure::Messages, None),
            s.aligned == records_total(report.records@, Measure::Aligned, None),
            s.rejected == records_total(report.records@, Measure::Rejected, None),
            s.quarantined == records_total(report.records@, Measure::Quarantined, None),
    {
        let t = tally_records(&report.records, None);
        ReportSummary {
            id: string_of(report.id.as_str()),
            org_name: string_of(report.org_name.as_str()),
            report_id: string_of(report.report_id.as_str()),
            domain: string_of(report.policy.domain.as_str()),
            begin: report.begin,
            end: report.end,
            messages: t.messages,
            aligned: t.aligned,
            rejected: t.rejected,
            quarantined: t.quarantined,
        }
    }
}

} // verus!

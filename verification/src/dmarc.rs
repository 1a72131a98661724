//! DMARC aggregate reports: the normalised model, and how a decoded
//! `<feedback>` document becomes one.
use vstd::prelude::*;

use crate::error::AppError;
use crate::text::{
    concat2, decimal_i64, int_decimal_seq, lowercase, push_char, string_of, to_lowercase, trim,
    trim_seq,
};
use chrono::TimeZone;

verus! {

// ---------------------------------------------------------------------------
// The normalised model
// ---------------------------------------------------------------------------

/// A normalised aggregate report. `begin` and `end` are seconds since the Unix epoch.
#[derive(Debug, Clone)]
pub struct Report {
    pub id: String,
    pub org_name: String,
    pub report_id: String,
    pub begin: i64,
    pub end: i64,
    pub policy: PublishedPolicy,
    pub records: Vec<Record>,
}

/// The DMARC policy that the domain published, as the reporter saw it.
#[derive(Debug, Clone)]
pub struct PublishedPolicy {
    pub domain: String,
    pub adkim: String,
    pub aspf: String,
    pub policy: String,
    pub subdomain_policy: String,
    pub pct: u8,
}

/// One row of a report: a source IP and what happened to its messages.
#[derive(Debug, Clone)]
pub struct Record {
    pub source_ip: String,
    pub count: u64,
    pub disposition: String,
    pub dkim: String,
    pub spf: String,
    pub header_from: String,
    pub envelope_from: String,
    pub dkim_aligned: bool,
    pub spf_aligned: bool,
    pub identifiers: Identifiers,
    pub auth_results: AuthResults,
}

/// The identifiers of a record.
#[derive(Debug, Clone)]
pub struct Identifiers {
    pub header_from: String,
    pub envelope_from: String,
}

/// The raw authentication results of a record.
#[derive(Debug, Clone)]
pub struct AuthResults {
    pub dkim: Vec<DkimAuth>,
    pub spf: Vec<SpfAuth>,
}

/// One DKIM result.
#[derive(Debug, Clone)]
pub struct DkimAuth {
    pub domain: String,
    pub selector: String,
    pub result: String,
}

/// One SPF result.
#[derive(Debug, Clone)]
pub struct SpfAuth {
    pub domain: String,
    pub scope: String,
    pub result: String,
}

// ---------------------------------------------------------------------------
// The decoded document, before normalisation
// ---------------------------------------------------------------------------

/// A `<feedback>` document as decoded from XML, before normalisation.
#[derive(Debug)]
pub struct Feedback {
    pub report_metadata: ReportMetadata,
    pub policy_published: PolicyPublished,
    pub records: Vec<RawRecord>,
}

/// `<report_metadata>`.
#[derive(Debug)]
pub struct ReportMetadata {
    pub org_name: String,
    pub report_id: String,
    pub date_range: DateRange,
}

/// `<date_range>`, in seconds since the Unix epoch.
#[derive(Debug)]
pub struct DateRange {
    pub begin: i64,
    pub end: i64,
}

/// `<policy_published>`.
#[derive(Debug)]
pub struct PolicyPublished {
    pub domain: String,
    pub adkim: Option<String>,
    pub aspf: Option<String>,
    pub p: Option<String>,
    pub sp: Option<String>,
    pub pct: Option<u8>,
}

/// `<record>`.
#[derive(Debug)]
pub struct RawRecord {
    pub row: Row,
    pub identifiers: RawIdentifiers,
    pub auth_results: RawAuthResults,
}

/// `<row>`.
#[derive(Debug)]
pub struct Row {
    pub source_ip: String,
    pub count: Option<u64>,
    pub policy_evaluated: PolicyEvaluated,
}

/// `<policy_evaluated>`.
#[derive(Debug)]
pub struct PolicyEvaluated {
    pub disposition: Option<String>,
    pub dkim: Option<String>,
    pub spf: Option<String>,
}

/// `<identifiers>`.
#[derive(Debug)]
pub struct RawIdentifiers {
    pub header_from: Option<String>,
    pub envelope_from: Option<String>,
}

/// `<auth_results>`; absent elements decode as empty lists.
#[derive(Debug)]
pub struct RawAuthResults {
    pub dkim: Vec<RawDkimAuth>,
    pub spf: Vec<RawSpfAuth>,
}

/// `<dkim>` inside `<auth_results>`.
#[derive(Debug)]
pub struct RawDkimAuth {
    pub domain: Option<String>,
    pub selector: Option<String>,
    pub result: Option<String>,
}

/// `<spf>` inside `<auth_results>`.
#[derive(Debug)]
pub struct RawSpfAuth {
    pub domain: Option<String>,
    pub scope: Option<String>,
    pub result: Option<String>,
}

// ---------------------------------------------------------------------------
// Specifications
// ---------------------------------------------------------------------------

/// The characters of an optional string, empty when absent.
pub open spec fn opt_or_empty(v: Option<String>) -> Seq<char> {
    match v {
        Some(s) => s@,
        None => seq![],
    }
}

/// An optional value trimmed and lower-cased, or `default` when it is absent or blank.
pub open spec fn fallback_seq(v: Option<String>, default: Seq<char>) -> Seq<char> {
    match v {
        Some(s) => {
            let t = lowercase(trim_seq(s@));
            if t.len() > 0 {
                t
            } else {
                default
            }
        },
        None => default,
    }
}

/// FNV-1a offset basis.
pub open spec fn fnv_offset() -> u64 {
    0xcbf29ce484222325u64
}

/// One FNV-1a step: xor the byte in, multiply by the FNV prime modulo 2^64.
pub open spec fn fnv_step(h: u64, b: u8) -> u64 {
    (h ^ (b as u64)).wrapping_mul(0x100000001b3u64)
}

/// FNV-1a over `bytes`, starting from `h`.
pub open spec fn fnv_bytes(h: u64, bytes: Seq<u8>) -> u64
    decreases bytes.len(),
{
    if bytes.len() == 0 {
        h
    } else {
        fnv_step(fnv_bytes(h, bytes.drop_last()), bytes.last())
    }
}

/// FNV-1a over the UTF-8 bytes of `parts`, one after the other.
pub open spec fn fnv_parts(h: u64, parts: Seq<Seq<char>>) -> u64
    decreases parts.len(),
{
    if parts.len() == 0 {
        h
    } else {
        fnv_bytes(fnv_parts(h, parts.drop_last()), vstd::utf8::encode_utf8(parts.last()))
    }
}

/// Lower-case hexadecimal digit.
pub open spec fn hex_digit(d: int) -> char {
    if d < 10 {
        (48 + d) as char
    } else {
        (87 + d) as char
    }
}

/// The `n` lowest hexadecimal digits of `v`, most significant first.
pub open spec fn hex_fixed(v: nat, n: nat) -> Seq<char>
    decreases n,
{
    if n == 0 {
        seq![]
    } else {
        hex_fixed(v / 16, (n - 1) as nat).push(hex_digit((v % 16) as int))
    }
}

/// The identifier of a report: 16 lower-case hex digits of FNV-1a over its key parts.
pub open spec fn stable_id_seq(parts: Seq<Seq<char>>) -> Seq<char> {
    hex_fixed(fnv_parts(fnv_offset(), parts) as nat, 16)
}

/// Whether `chrono` accepts `secs` as a UTC timestamp (`Utc.timestamp_opt(secs, 0)`):
/// the instants from the start of year -262143 to the end of year 262142.
pub open spec fn chrono_timestamp_in_range(secs: i64) -> bool {
    -8334601228800 <= secs <= 8210266876799
}

/// A DKIM result normalised from its decoded form.
pub open spec fn dkim_from(out: DkimAuth, raw: RawDkimAuth) -> bool {
    &&& out.domain@ == opt_or_empty(raw.domain)
    &&& out.selector@ == opt_or_empty(raw.selector)
    &&& out.result@ == opt_or_empty(raw.result)
}

/// An SPF result normalised from its decoded form.
pub open spec fn spf_from(out: SpfAuth, raw: RawSpfAuth) -> bool {
    &&& out.domain@ == opt_or_empty(raw.domain)
    &&& out.scope@ == opt_or_empty(raw.scope)
    &&& out.result@ == opt_or_empty(raw.result)
}

/// A record normalised from its decoded form.
pub open spec fn record_from(out: Record, raw: RawRecord) -> bool {
    &&& out.source_ip@ == raw.row.source_ip@
    &&& out.count == match raw.row.count {
        Some(c) => c,
        None => 0,
    }
    &&& out.disposition@ == fallback_seq(raw.row.policy_evaluated.disposition, "none"@)
    &&& out.dkim@ == fallback_seq(raw.row.policy_evaluated.dkim, "fail"@)
    &&& out.spf@ == fallback_seq(raw.row.policy_evaluated.spf, "fail"@)
    &&& out.dkim_aligned == (out.dkim@ == "pass"@)
    &&& out.spf_aligned == (out.spf@ == "pass"@)
    &&& out.identifiers.header_from@ == opt_or_empty(raw.identifiers.header_from)
    &&& out.identifiers.envelope_from@ == opt_or_empty(raw.identifiers.envelope_from)
    &&& out.header_from@ == out.identifiers.header_from@
    &&& out.envelope_from@ == out.identifiers.envelope_from@
    &&& out.auth_results.dkim@.len() == raw.auth_results.dkim@.len()
    &&& forall|i: int|
        0 <= i < out.auth_results.dkim@.len() ==> dkim_from(
            #[trigger] out.auth_results.dkim@[i],
            raw.auth_results.dkim@[i],
        )
    &&& out.auth_results.spf@.len() == raw.auth_results.spf@.len()
    &&& forall|i: int|
        0 <= i < out.auth_results.spf@.len() ==> spf_from(
            #[trigger] out.auth_results.spf@[i],
            raw.auth_results.spf@[i],
        )
}

/// The message with which a decoded document is rejected, if it is.
pub open spec fn report_rejection(f: Feedback) -> Option<Seq<char>> {
    let begin = f.report_metadata.date_range.begin;
    let end = f.report_metadata.date_range.end;
    if !chrono_timestamp_in_range(begin) {
        Some("invalid unix timestamp: "@ + int_decimal_seq(begin as int))
    } else if !chrono_timestamp_in_range(end) {
        Some("invalid unix timestamp: "@ + int_decimal_seq(end as int))
    } else if trim_seq(f.report_metadata.report_id@).len() == 0 || lowercase(
        trim_seq(f.policy_published.domain@),
    ).len() == 0 {
        Some("report_id and policy_published.domain are required"@)
    } else {
        None
    }
}

/// `r` is the normalised form of the accepted document `f`.
pub open spec fn report_from(r: Report, f: Feedback) -> bool {
    let org = trim_seq(f.report_metadata.org_name@);
    let rid = trim_seq(f.report_metadata.report_id@);
    let domain = lowercase(trim_seq(f.policy_published.domain@));
    let begin = f.report_metadata.date_range.begin;
    &&& r.org_name@ == org
    &&& r.report_id@ == rid
    &&& r.begin == begin
    &&& r.end == f.report_metadata.date_range.end
    &&& r.policy.domain@ == domain
    &&& r.policy.adkim@ == fallback_seq(f.policy_published.adkim, "r"@)
    &&& r.policy.aspf@ == fallback_seq(f.policy_published.aspf, "r"@)
    &&& r.policy.policy@ == fallback_seq(f.policy_published.p, "none"@)
    &&& r.policy.subdomain_policy@ == fallback_seq(f.policy_published.sp, ""@)
    &&& r.policy.pct == match f.policy_published.pct {
        Some(p) => p,
        None => 100u8,
    }
    &&& r.id@ == stable_id_seq(seq![org, rid, domain, int_decimal_seq(begin as int)])
    &&& r.records@.len() == f.records@.len()
    &&& forall|i: int| 0 <= i < r.records@.len() ==> record_from(#[trigger] r.records@[i], f.records@[i])
}

// ---------------------------------------------------------------------------
// Outside calls
// ---------------------------------------------------------------------------

/// Calls `chrono::Utc.timestamp_opt(secs, 0)` and reports whether it gives a single instant.
/// `DateTime::from_timestamp` accepts exactly the days between years -262143 and
/// 262142, as `chrono_timestamp_in_range` states.
#[verifier::external_body]
fn utc_timestamp_valid(secs: i64) -> (ok: bool)
    ensures
        ok == chrono_timestamp_in_range(secs),
{
    chrono::Utc.timestamp_opt(secs, 0).single().is_some()
}

/// Names what `DateTime::<Utc>::to_rfc3339` writes for the instant `secs` seconds after the epoch.
pub uninterp spec fn rfc3339_utc(secs: i64) -> Seq<char>;

/// The RFC 3339 text of an instant, empty when `chrono` cannot represent it.
pub open spec fn instant_text(secs: i64) -> Seq<char> {
    if chrono_timestamp_in_range(secs) {
        rfc3339_utc(secs)
    } else {
        seq![]
    }
}

/// Calls `Utc.timestamp_opt(secs, 0)` and, when it gives an instant, `to_rfc3339` on it.
#[verifier::external_body]
pub(crate) fn rfc3339(secs: i64) -> (r: Option<String>)
    ensures
        r is Some <==> chrono_timestamp_in_range(secs),
        r matches Some(t) ==> t@ == rfc3339_utc(secs),
{
    chrono::Utc.timestamp_opt(secs, 0).single().map(|d| d.to_rfc3339())
}

/// The RFC 3339 text of an instant, empty when `chrono` cannot represent it.
pub fn instant_rfc3339(secs: i64) -> (r: String)
    ensures
        r@ == instant_text(secs),
{
    match rfc3339(secs) {
        Some(t) => t,
        None => String::new(),
    }
}

// ---------------------------------------------------------------------------
// Executable functions
// ---------------------------------------------------------------------------

/// Equality of string contents.
pub fn str_eq(a: &str, b: &str) -> (r: bool)
    ensures
        r == (a@ == b@),
{
    string_of(a) == string_of(b)
}

/// The value trimmed and lower-cased, or `default` when absent or blank.
pub fn fallback(value: Option<String>, default: &str) -> (r: String)
    ensures
        r@ == fallback_seq(value, default@),
{
    match value {
        Some(v) => {
            let t = to_lowercase(trim(v.as_str()).as_str());
            if t.as_str().is_empty() {
                string_of(default)
            } else {
                t
            }
        },
        None => string_of(default),
    }
}

fn unwrap_or_empty(v: Option<String>) -> (r: String)
    ensures
        r@ == opt_or_empty(v),
{
    match v {
        Some(s) => s,
        None => String::new(),
    }
}

proof fn lemma_fnv_bytes_step(h: u64, bytes: Seq<u8>, j: int)
    requires
        0 <= j < bytes.len(),
    ensures
        fnv_bytes(h, bytes.take(j + 1)) == fnv_step(fnv_bytes(h, bytes.take(j)), bytes[j]),
{
    assert(bytes.take(j + 1).drop_last() =~= bytes.take(j));
}

/// Appends the `n` lowest hexadecimal digits of `v`, most significant first.
fn push_hex_fixed(out: &mut String, v: u64, n: u32)
    ensures
        final(out)@ == old(out)@ + hex_fixed(v as nat, n as nat),
    decreases n,
{
    if n > 0 {
        push_hex_fixed(out, v / 16, n - 1);
        let d = (v % 16) as u8;
        let c = if d < 10 {
            (48u8 + d) as char
        } else {
            (87u8 + d) as char
        };
        push_char(out, c);
        assert(c == hex_digit((v % 16) as int));
    }
    assert(hex_fixed(v as nat, n as nat) =~= if n == 0 {
        seq![]
    } else {
        hex_fixed((v / 16) as nat, (n - 1) as nat).push(hex_digit((v % 16) as int))
    });
}

/// FNV-1a of the parts' UTF-8 bytes, as 16 lower-case hexadecimal digits.
pub fn stable_id(parts: &[&str]) -> (r: String)
    ensures
        r@ == stable_id_seq(parts@.map_values(|p: &str| p@)),
{
    let ghost ps = parts@.map_values(|p: &str| p@);
    let mut hash: u64 = 0xcbf29ce484222325u64;
    let mut i: usize = 0;
    while i < parts.len()
        invariant
            i <= parts@.len(),
            ps == parts@.map_values(|p: &str| p@),
            hash == fnv_parts(fnv_offset(), ps.take(i as int)),
        decreases parts.len() - i,
    {
        let bytes = parts[i].as_bytes();
        let ghost start = hash;
        let mut j: usize = 0;
        while j < bytes.len()
            invariant
                j <= bytes@.len(),
                hash == fnv_bytes(start, bytes@.take(j as int)),
            decreases bytes.len() - j,
        {
            proof {
                lemma_fnv_bytes_step(start, bytes@, j as int);
            }
            hash = (hash ^ (bytes[j] as u64)).wrapping_mul(0x100000001b3u64);
            j = j + 1;
        }
        proof {
            assert(bytes@.take(bytes@.len() as int) =~= bytes@);
            assert(ps.take(i + 1 as int).drop_last() =~= ps.take(i as int));
            assert(ps.take(i + 1 as int).last() == ps[i as int]);
        }
        i = i + 1;
    }
    assert(ps.take(parts@.len() as int) =~= ps);
    let mut out = String::new();
    push_hex_fixed(&mut out, hash, 16);
    assert(out@ =~= hex_fixed(hash as nat, 16));
    out
}

fn dkim_auth_of(raw: RawDkimAuth) -> (out: DkimAuth)
    ensures
        dkim_from(out, raw),
{
    DkimAuth {
        domain: unwrap_or_empty(raw.domain),
        selector: unwrap_or_empty(raw.selector),
        result: unwrap_or_empty(raw.result),
    }
}

fn spf_auth_of(raw: RawSpfAuth) -> (out: SpfAuth)
    ensures
        spf_from(out, raw),
{
    SpfAuth {
        domain: unwrap_or_empty(raw.domain),
        scope: unwrap_or_empty(raw.scope),
        result: unwrap_or_empty(raw.result),
    }
}

/// Normalises one decoded record.
pub fn record_of(raw: RawRecord) -> (out: Record)
    ensures
        record_from(out, raw),
{
    let ghost g = raw;
    let RawRecord { row, identifiers, auth_results } = raw;
    let header_from = unwrap_or_empty(identifiers.header_from);
    let envelope_from = unwrap_or_empty(identifiers.envelope_from);
    let mut dkim_list: Vec<DkimAuth> = Vec::new();
    for d in it: auth_results.dkim.into_iter()
        invariant
            it.seq() == g.auth_results.dkim@,
            dkim_list@.len() == it.index(),
            forall|k: int| 0 <= k < it.index() ==> dkim_from(#[trigger] dkim_list@[k], it.seq()[k]),
    {
        dkim_list.push(dkim_auth_of(d));
    }
    let mut spf_list: Vec<SpfAuth> = Vec::new();
    for s in it: auth_results.spf.into_iter()
        invariant
            it.seq() == g.auth_results.spf@,
            spf_list@.len() == it.index(),
            forall|k: int| 0 <= k < it.index() ==> spf_from(#[trigger] spf_list@[k], it.seq()[k]),
    {
        spf_list.push(spf_auth_of(s));
    }
    let dkim = fallback(row.policy_evaluated.dkim, "fail");
    let spf = fallback(row.policy_evaluated.spf, "fail");
    let dkim_aligned = str_eq(dkim.as_str(), "pass");
    let spf_aligned = str_eq(spf.as_str(), "pass");
    let count = match row.count {
        Some(c) => c,
        None => 0,
    };
    Record {
        source_ip: row.source_ip,
        count,
        disposition: fallback(row.policy_evaluated.disposition, "none"),
        dkim,
        spf,
        header_from: header_from.clone(),
        envelope_from: envelope_from.clone(),
        dkim_aligned,
        spf_aligned,
        identifiers: Identifiers { header_from, envelope_from },
        auth_results: AuthResults { dkim: dkim_list, spf: spf_list },
    }
}

/// Normalises a decoded `<feedback>` document into a report, or rejects it.
pub fn report_from_feedback(feedback: Feedback) -> (r: Result<Report, AppError>)
    ensures
        r is Err <==> report_rejection(feedback) is Some,
        r matches Err(e) ==> e matches AppError::InvalidReport(m) && m@ == report_rejection(
            feedback,
        ).unwrap(),
        r matches Ok(rep) ==> report_from(rep, feedback),
        0 <= feedback.report_metadata.date_range.begin <= 253402300799
            && 0 <= feedback.report_metadata.date_range.end <= 253402300799 ==> chrono_timestamp_in_range(
            feedback.report_metadata.date_range.begin,
        ) && chrono_timestamp_in_range(feedback.report_metadata.date_range.end),
        lowercase(trim_seq(feedback.policy_published.domain@)).len() == 0 <==> trim_seq(
            feedback.policy_published.domain@,
        ).len() == 0,
{
    let ghost f = feedback;
    let Feedback { report_metadata, policy_published, records } = feedback;
    let report_id = trim(report_metadata.report_id.as_str());
    let org_name = trim(report_metadata.org_name.as_str());
    let begin = report_metadata.date_range.begin;
    let end = report_metadata.date_range.end;
    let domain = to_lowercase(trim(policy_published.domain.as_str()).as_str());
    if !utc_timestamp_valid(begin) {
        return Err(AppError::InvalidReport(concat2("invalid unix timestamp: ", decimal_i64(begin).as_str())));
    }
    if !utc_timestamp_valid(end) {
        return Err(AppError::InvalidReport(concat2("invalid unix timestamp: ", decimal_i64(end).as_str())));
    }
    if report_id.as_str().is_empty() || domain.as_str().is_empty() {
        return Err(
            AppError::InvalidReport(
                string_of("report_id and policy_published.domain are required"),
            ),
        );
    }
    let pct = match policy_published.pct {
        Some(p) => p,
        None => 100u8,
    };
    let policy = PublishedPolicy {
        domain,
        adkim: fallback(policy_published.adkim, "r"),
        aspf: fallback(policy_published.aspf, "r"),
        policy: fallback(policy_published.p, "none"),
        subdomain_policy: fallback(policy_published.sp, ""),
        pct,
    };
    let mut out: Vec<Record> = Vec::new();
    for raw in it: records.into_iter()
        invariant
            it.seq() == f.records@,
            out@.len() == it.index(),
            forall|k: int| 0 <= k < it.index() ==> record_from(#[trigger] out@[k], it.seq()[k]),
    {
        out.push(record_of(raw));
    }
    let begin_text = decimal_i64(begin);
    let parts: [&str; 4] = [
        org_name.as_str(),
        report_id.as_str(),
        policy.domain.as_str(),
        begin_text.as_str(),
    ];
    let id = stable_id(&parts);
    assert(parts@.map_values(|p: &str| p@) =~= seq![
        org_name@,
        report_id@,
        policy.domain@,
        begin_text@,
    ]);
    Ok(Report { id, org_name, report_id, begin, end, policy, records: out })
}

/// A report read again gets the identifier it got before: two accepted
/// documents that agree on the reporter, the report identifier, the domain and
/// the start of the period normalise to reports with the same identifier, so
/// storing the second is recognised as a duplicate.
pub proof fn lemma_same_report_same_id(r1: Report, f1: Feedback, r2: Report, f2: Feedback)
    requires
        report_from(r1, f1),
        report_from(r2, f2),
        trim_seq(f1.report_metadata.org_name@) == trim_seq(f2.report_metadata.org_name@),
        trim_seq(f1.report_metadata.report_id@) == trim_seq(f2.report_metadata.report_id@),
        lowercase(trim_seq(f1.policy_published.domain@)) == lowercase(
            trim_seq(f2.policy_published.domain@),
        ),
        f1.report_metadata.date_range.begin == f2.report_metadata.date_range.begin,
    ensures
        r1.id@ == r2.id@,
{
}

} // verus!

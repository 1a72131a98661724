use dmarcontrol::actions::{action_items, DomainAlignment, SourceAlignment};
use dmarcontrol::config::{geoip_paths, help_text, join_path, parse_options};
use dmarcontrol::detail::domain_detail;
use dmarcontrol::dmarc::{
    fallback, instant_rfc3339, report_from_feedback, stable_id, DateRange, Feedback,
    PolicyEvaluated, PolicyPublished, RawAuthResults, RawDkimAuth, RawIdentifiers, RawRecord,
    RawSpfAuth, Report, ReportMetadata, Row,
};
use dmarcontrol::error::AppError;
use dmarcontrol::importer::InsertSummary;
use dmarcontrol::geo::{
    continent_centroid, country_name_from_code, estimate_location, fallback_location,
    ip66_location, ip66_record, location_from_record, map_plan, resolve_location, GeoRecord,
};
use dmarcontrol::insights::{
    combine_score, csv_cell, domains, enforcement_stage, grade, next_step, policy_mix,
    policy_strength, posture, rate_status, reports_csv, risk_label, single_policy_strength,
    strongest_policy, timeline, AlignmentBand, Statistics,
};
use dmarcontrol::protocols::{protocol_metric, protocol_statuses, ProtocolRates};
use dmarcontrol::sources::{collect_sender_hints, sender_name, source_insights};
use dmarcontrol::web::{is_public_path, login_error_target, oidc_username, ReportSummary};

fn s(v: &str) -> String {
    v.to_string()
}

struct Rec<'a> {
    ip: &'a str,
    count: u64,
    disposition: &'a str,
    dkim: &'a str,
    spf: &'a str,
    dkim_domain: Option<&'a str>,
    spf_domain: Option<&'a str>,
}

fn feedback(report_id: &str, domain: &str, policy: &str, begin: i64, recs: &[Rec]) -> Feedback {
    Feedback {
        report_metadata: ReportMetadata {
            org_name: s("Org"),
            report_id: s(report_id),
            date_range: DateRange { begin, end: begin + 86399 },
        },
        policy_published: PolicyPublished {
            domain: s(domain),
            adkim: None,
            aspf: None,
            p: Some(s(policy)),
            sp: None,
            pct: None,
        },
        records: recs
            .iter()
            .map(|r| RawRecord {
                row: Row {
                    source_ip: s(r.ip),
                    count: Some(r.count),
                    policy_evaluated: PolicyEvaluated {
                        disposition: Some(s(r.disposition)),
                        dkim: Some(s(r.dkim)),
                        spf: Some(s(r.spf)),
                    },
                },
                identifiers: RawIdentifiers { header_from: Some(s(domain)), envelope_from: None },
                auth_results: RawAuthResults {
                    dkim: r
                        .dkim_domain
                        .map(|d| vec![RawDkimAuth { domain: Some(s(d)), selector: None, result: Some(s("pass")) }])
                        .unwrap_or_default(),
                    spf: r
                        .spf_domain
                        .map(|d| vec![RawSpfAuth { domain: Some(s(d)), scope: None, result: Some(s("pass")) }])
                        .unwrap_or_default(),
                },
            })
            .collect(),
    }
}

fn sample() -> Vec<Report> {
    let a = feedback("r1", "Example.com", "none", 1717200000, &[
        Rec { ip: "209.85.1.1", count: 90, disposition: "none", dkim: "pass", spf: "pass", dkim_domain: Some("google.com"), spf_domain: None },
        Rec { ip: "198.51.100.7", count: 10, disposition: "reject", dkim: "fail", spf: "fail", dkim_domain: None, spf_domain: Some("bad.example") },
    ]);
    let b = feedback("r2", "shop.example", "reject", 1717286400, &[
        Rec { ip: "209.85.1.1", count: 50, disposition: "none", dkim: "pass", spf: "fail", dkim_domain: Some("google.com"), spf_domain: None },
        Rec { ip: "203.0.113.5", count: 5, disposition: "quarantine", dkim: "fail", spf: "pass", dkim_domain: None, spf_domain: None },
    ]);
    vec![report_from_feedback(a).unwrap(), report_from_feedback(b).unwrap()]
}

#[test]
fn report_normalisation() {
    let r = &sample()[0];
    assert_eq!(r.policy.domain, "example.com");
    assert_eq!(r.policy.adkim, "r");
    assert_eq!(r.policy.pct, 100);
    assert_eq!(r.id.len(), 16);
    assert_eq!(r.id, stable_id(&["Org", "r1", "example.com", "1717200000"]));
    assert_eq!(stable_id(&[]), "cbf29ce484222325");
    assert_eq!(fallback(Some(s("  QUARANTINE ")), "none"), "quarantine");
    assert_eq!(fallback(Some(s("   ")), "none"), "none");
    assert_eq!(instant_rfc3339(0), "1970-01-01T00:00:00+00:00");
    let missing = feedback("", "example.com", "none", 0, &[]);
    match report_from_feedback(missing) {
        Err(AppError::InvalidReport(m)) => assert_eq!(m, "report_id and policy_published.domain are required"),
        other => panic!("unexpected {:?}", other.map(|r| r.id)),
    }
}

#[test]
fn reading_a_report_again_gives_its_identifier() {
    let first = report_from_feedback(feedback("r1", "Example.com", "none", 1717200000, &[])).unwrap();
    let again = report_from_feedback(feedback(" r1 ", "EXAMPLE.COM ", "reject", 1717200000, &[])).unwrap();
    let later = report_from_feedback(feedback("r1", "example.com", "none", 1717286400, &[])).unwrap();
    assert_eq!(first.id, again.id);
    assert_ne!(first.id, later.id);
    let mut summary = InsertSummary::new();
    summary.record(1);
    summary.record(0);
    summary.record(1);
    assert_eq!((summary.imported, summary.duplicates), (2, 1));
}

#[test]
fn statistics_and_scores() {
    let reports = sample();
    let st = Statistics::from_reports(&reports);
    assert_eq!((st.reports, st.domains, st.messages, st.aligned, st.rejected, st.quarantined), (2, 2, 155, 145, 10, 5));
    assert_eq!(policy_strength(&reports), 3);
    assert_eq!(enforcement_stage(&reports), "Enforce");
    assert_eq!(enforcement_stage(&[]), "Onboard");
    assert_eq!(single_policy_strength("quarantine"), 2);
    assert_eq!(strongest_policy("none", "quarantine"), "quarantine");
    assert_eq!(combine_score(67, 3, 2), 97);
    assert_eq!(combine_score(72, 3, 1), 100);
    assert_eq!(combine_score(72, 3, 0), 0);
    assert_eq!(grade(97), "A");
    assert_eq!(grade(80), "B");
    assert_eq!(posture(80), "Close to enforcement");
    assert_eq!(risk_label(0, &AlignmentBand::Below50), "unknown");
    assert_eq!(risk_label(3, &AlignmentBand::Below90), "high");
    assert_eq!(rate_status(&AlignmentBand::Below98), "partial");
    assert_eq!(next_step("quarantine", true), "Ready to switch from quarantine to reject enforcement");
}

#[test]
fn domain_rows_and_timeline() {
    let reports = sample();
    let rows = domains(&reports);
    assert_eq!(rows.len(), 2);
    assert_eq!(rows[0].domain, "example.com");
    assert_eq!((rows[0].messages, rows[0].aligned, rows[0].sources), (100, 90, 2));
    assert_eq!(rows[1].policy, "reject");
    assert_eq!(rows[1].last_report, Some(1717286400 + 86399));
    let points = timeline(&reports);
    assert_eq!(points.len(), 2);
    assert_eq!(points[0].day, 1717200000 / 86400);
    assert_eq!((points[1].messages, points[1].quarantined), (55, 5));
    let mix = policy_mix(&reports);
    assert_eq!(mix.len(), 2);
    assert_eq!((mix[0].policy.as_str(), mix[0].messages), ("none", 100));
    assert_eq!((mix[1].policy.as_str(), mix[1].messages), ("reject", 55));
}

#[test]
fn sources_ranked_and_named() {
    let reports = sample();
    let rows = source_insights(&reports);
    assert_eq!(rows.len(), 3);
    assert_eq!(rows[0].source_ip, "209.85.1.1");
    assert_eq!((rows[0].messages, rows[0].aligned), (140, 140));
    assert_eq!(rows[0].sender, "Google Workspace");
    assert_eq!(rows[1].source_ip, "198.51.100.7");
    assert_eq!(rows[1].sender, "bad.example");
    assert_eq!(rows[2].sender, "Unknown sender");
    let mut hints: Vec<String> = Vec::new();
    collect_sender_hints(&reports[0].records[0], &mut hints);
    assert_eq!(hints, vec![s("google.com")]);
    assert_eq!(sender_name(&vec![s("mail.sendgrid.net")]), "SendGrid");
}

#[test]
fn detail_of_a_domain() {
    let reports = sample();
    assert!(domain_detail(&reports, "nowhere.example").is_none());
    let d = domain_detail(&reports, "example.com").unwrap();
    assert_eq!(d.summary.messages, 100);
    assert_eq!(d.policy.policy, "none");
    assert_eq!(d.sources.len(), 2);
    assert_eq!(d.recent_reports.len(), 1);
    assert_eq!(d.recent_reports[0].report_id, "r1");
}

#[test]
fn action_item_rules() {
    let doms = vec![
        DomainAlignment { domain: s("a.example"), policy: s("none"), messages: 100, rate_text: s("99.0"), at_least_98: true },
        DomainAlignment { domain: s("b.example"), policy: s("none"), messages: 10, rate_text: s("50.0"), at_least_98: false },
        DomainAlignment { domain: s("c.example"), policy: s("reject"), messages: 10, rate_text: s("10.0"), at_least_98: false },
    ];
    let srcs = vec![SourceAlignment { sender: s("X"), messages: 4, first_domain: None, rate_text: s("25.0"), below_50: true, below_90: true }];
    let items = action_items(&doms, &srcs, true);
    assert_eq!(items.len(), 3);
    assert_eq!(items[0].title, "Advance policy from monitoring");
    assert_eq!(items[0].detail, "a.example has 99.0% alignment while still using p=none.");
    assert_eq!(items[1].detail, "b.example alignment is 50.0% across 10 messages.");
    assert_eq!((items[2].severity.as_str(), items[2].domain.as_str()), ("critical", "unknown"));
    assert_eq!(items[2].detail, "X sent 4 messages with 25.0% alignment.");
    let calm = action_items(&[], &[], true);
    assert_eq!(calm[0].title, "Maintain enforcement posture");
    assert!(action_items(&[], &[], false).is_empty());
}

#[test]
fn csv_export() {
    assert_eq!(csv_cell("plain"), "plain");
    assert_eq!(csv_cell("a,b"), "\"a,b\"");
    assert_eq!(csv_cell("say \"hi\""), "\"say \"\"hi\"\"\"");
    let csv = reports_csv(&sample());
    let lines: Vec<&str> = csv.lines().collect();
    assert_eq!(lines[0], "report_id,org_name,domain,begin,end,source_ip,messages,dkim,spf,disposition,header_from,envelope_from");
    assert_eq!(lines.len(), 5);
    assert_eq!(
        lines[1],
        "r1,Org,example.com,2024-06-01T00:00:00+00:00,2024-06-01T23:59:59+00:00,209.85.1.1,90,pass,pass,none,Example.com,"
    );
}

#[test]
fn overview_panels() {
    let reports = sample();
    let st = Statistics::from_reports(&reports);
    let rates = ProtocolRates {
        dmarc_score: 94,
        spf_score: 65,
        dkim_score: 90,
        enforcement_score: 50,
        alignment_text: s("93.5%"),
        spf_rate_text: s("64.5%"),
        dkim_rate_text: s("90.3%"),
        spf_band: AlignmentBand::Below90,
        dkim_band: AlignmentBand::Below98,
    };
    let panels = protocol_statuses(&reports, &st, &rates);
    assert_eq!(panels.len(), 4);
    assert_eq!(panels[0].detail, "2 aggregate reports imported");
    assert_eq!(panels[0].evidence[1], "3 distinct source IPs observed.");
    assert_eq!(panels[1].status, "needs review");
    assert_eq!(panels[1].metrics[0].value, "95");
    assert_eq!(panels[1].metrics[2].value, "60");
    assert_eq!(panels[2].metrics[0].value, "140");
    assert_eq!(panels[3].status, "enabled");
    assert_eq!(panels[3].detail, "1 of 2 domains enforce quarantine or reject");
    assert_eq!(panels[3].metrics[0].value, "Enforce");
    assert_eq!(protocol_metric("L", s("v")).label, "L");
}

#[test]
fn places() {
    assert_eq!(country_name_from_code("DE"), "Germany");
    assert_eq!(country_name_from_code("XX"), "XX");
    assert_eq!(continent_centroid("EU"), Some((545260, 152551)));
    let g = estimate_location("149.72.1.1", "x").unwrap();
    assert_eq!((g.country.as_str(), g.region.as_str(), g.latitude_e4), ("United States", "Denver", 397392));
    assert_eq!(estimate_location("1.1.1.1", "Microsoft 365").unwrap().region, "Dublin");
    assert!(estimate_location("1.1.1.1", "someone").is_none());
    let f = fallback_location("France", "FR", "Paris", 488566, 23522);
    assert_eq!(f.provider, "local fallback");
    assert_eq!(resolve_location(Some(f), "1.1.1.1", "x").unwrap().region, "Paris");
    let record = GeoRecord {
        country_name_en: None,
        country_name: None,
        country_iso_code: Some(s("fr")),
        continent_name_en: Some(s("Europe")),
        continent_name: None,
        continent_code: Some(s("EU")),
        asn_u64: None,
        asn_u32: Some(3215),
        asn_number_u64: None,
        asn_number_u32: None,
        asn_org: None,
        asn_organization: Some(s("Orange")),
    };
    let g = location_from_record(&record).unwrap();
    assert_eq!((g.country.as_str(), g.country_code.as_deref()), ("France", Some("FR")));
    assert_eq!((g.asn_number, g.latitude_e4, g.longitude_e4), (Some(3215), 462276, 22137));
    let mut unknown = record;
    unknown.country_iso_code = Some(s("zz"));
    unknown.continent_code = None;
    assert!(location_from_record(&unknown).is_none());
}

#[test]
fn web_rules() {
    assert!(is_public_path("/assets/app.js"));
    assert!(is_public_path("/api/auth/oidc/callback"));
    assert!(!is_public_path("/api/reports"));
    assert_eq!(login_error_target("oidc_state"), "/login?error=oidc_state");
    assert_eq!(oidc_username(Some("--Jane Doe!--"), "x@y", "abcdefgh"), "Jane-Doe-abcdef");
    assert_eq!(oidc_username(None, "bob.smith@example.com", "42"), "bob.smith-42");
    assert_eq!(oidc_username(Some("!!!"), "x@y", "s"), "user-s");
    let reports = sample();
    let row = ReportSummary::from_report(&reports[1]);
    assert_eq!((row.messages, row.aligned, row.rejected, row.quarantined), (55, 55, 0, 5));
    assert_eq!(row.domain, "shop.example");
}

#[test]
fn command_line() {
    assert_eq!(join_path("data", "ip66.mmdb"), "data/ip66.mmdb");
    assert_eq!(join_path("data/", "x"), "data/x");
    assert_eq!(join_path("", "x"), "x");
    assert_eq!(geoip_paths("d", None), vec![s("d/ip66.mmdb"), s("/usr/local/share/dmarcontrol/ip66.mmdb")]);
    let args = vec![s("--data-dir"), s("/var/lib/d"), s("--import-mailbox"), s("--addr"), s("0.0.0.0:9000"), s("--bogus")];
    let o = parse_options(None, None, None, &args);
    assert_eq!(o.addr, "0.0.0.0:9000");
    assert_eq!(o.data_dir, "/var/lib/d");
    assert_eq!(o.geoip_db_paths[0], "/var/lib/d/ip66.mmdb");
    assert!(o.import_mailbox && !o.show_help && o.import_path.is_none());
    let o = parse_options(Some("1.2.3.4:1"), Some("x"), Some("/db.mmdb"), &vec![s("--data-dir"), s("y"), s("-h"), s("--import"), s("r")]);
    assert_eq!(o.geoip_db_paths, vec![s("/db.mmdb")]);
    assert!(o.show_help && o.import_path.is_none());
    assert!(help_text().starts_with("dmarcontrol\n\nUsage:"));
}

#[test]
fn map_places_sources_by_volume() {
    let (order, unplaced) = map_plan(&vec![5, 40, 7, 40, 1], &vec![true, true, false, true, false]);
    assert_eq!(order, vec![1, 3, 0]);
    assert_eq!(unplaced, 2);
    let (order, unplaced) = map_plan(&vec![], &vec![]);
    assert!(order.is_empty());
    assert_eq!(unplaced, 0);
}

#[test]
fn domains_outside_ascii() {
    let r = report_from_feedback(feedback("r9", "  ÉXAMPLE.com ", "none", 1717200000, &[])).unwrap();
    assert_eq!(r.policy.domain, "éxample.com");
    match report_from_feedback(feedback("r9", "   ", "none", 1717200000, &[])) {
        Err(AppError::InvalidReport(m)) => assert_eq!(m, "report_id and policy_published.domain are required"),
        other => panic!("unexpected {:?}", other.map(|r| r.id)),
    }
}

#[test]
fn database_lookups_without_a_database() {
    assert!(ip66_record(b"not a database", "8.8.8.8").is_none());
    assert!(ip66_location(b"not a database", "8.8.8.8").is_none());
    assert!(ip66_location(&[], "no address").is_none());
}

#[test]
fn timestamps_chrono_accepts() {
    assert_eq!(instant_rfc3339(8210266876799), "+262142-12-31T23:59:59+00:00");
    assert_eq!(instant_rfc3339(8210266876800), "");
    assert!(!instant_rfc3339(-8334601228800).is_empty());
    assert_eq!(instant_rfc3339(-8334601228801), "");
}

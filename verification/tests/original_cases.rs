use dmarcontrol::attachments::{collect_attachments, read_message, MailboxAttachment};
use dmarcontrol::dmarc::{
    report_from_feedback, DateRange, Feedback, PolicyEvaluated, PolicyPublished, RawAuthResults,
    RawDkimAuth, RawIdentifiers, RawRecord, RawSpfAuth, ReportMetadata, Row,
};
use dmarcontrol::geo::country_centroid;

fn s(v: &str) -> String {
    v.to_string()
}

fn minimal_feedback() -> Feedback {
    Feedback {
        report_metadata: ReportMetadata {
            org_name: s("Example ISP"),
            report_id: s("abc-123"),
            date_range: DateRange { begin: 1717200000, end: 1717286399 },
        },
        policy_published: PolicyPublished {
            domain: s("example.com"),
            adkim: Some(s("r")),
            aspf: Some(s("r")),
            p: Some(s("none")),
            sp: None,
            pct: Some(100),
        },
        records: vec![RawRecord {
            row: Row {
                source_ip: s("203.0.113.10"),
                count: Some(42),
                policy_evaluated: PolicyEvaluated {
                    disposition: Some(s("none")),
                    dkim: Some(s("pass")),
                    spf: Some(s("fail")),
                },
            },
            identifiers: RawIdentifiers { header_from: Some(s("example.com")), envelope_from: None },
            auth_results: RawAuthResults {
                dkim: vec![RawDkimAuth {
                    domain: Some(s("example.com")),
                    selector: Some(s("s1")),
                    result: Some(s("pass")),
                }],
                spf: vec![RawSpfAuth {
                    domain: Some(s("mail.example.com")),
                    scope: Some(s("mfrom")),
                    result: Some(s("pass")),
                }],
            },
        }],
    }
}

#[test]
fn parses_minimal_dmarc_report() {
    let report = report_from_feedback(minimal_feedback()).expect("parse report");
    assert_eq!(report.policy.domain, "example.com");
    assert_eq!(report.records[0].count, 42);
    assert!(report.records[0].dkim_aligned);
}

fn degrees(v: Option<(i32, i32)>) -> Option<(f64, f64)> {
    v.map(|(lat, lon)| (lat as f64 / 10000.0, lon as f64 / 10000.0))
}

#[test]
fn knows_common_country_centroids() {
    assert_eq!(degrees(country_centroid("US")), Some((37.0902, -95.7129)));
    assert_eq!(degrees(country_centroid("FR")), Some((46.2276, 2.2137)));
    assert_eq!(degrees(country_centroid("IE")), Some((53.4129, -8.2439)));
}

#[test]
fn extracts_xml_gzip_attachment_from_message() {
    let raw = b"From: reports@example.test\r\nSubject: DMARC\r\nContent-Type: multipart/mixed; boundary=\"x\"\r\n\r\n--x\r\nContent-Type: text/plain\r\n\r\nreport attached\r\n--x\r\nContent-Type: application/gzip; name=\"report.xml.gz\"\r\nContent-Disposition: attachment; filename=\"report.xml.gz\"\r\nContent-Transfer-Encoding: base64\r\n\r\nH4sIAAAAAAAA/wMAAAAAAAAAAAA=\r\n--x--\r\n";
    let parsed = read_message(raw).expect("parse mail");
    let mut attachments: Vec<MailboxAttachment> = Vec::new();
    let mut failed_attachments: Vec<String> = Vec::new();
    collect_attachments(&parsed, &mut attachments, &mut failed_attachments)
        .expect("collect attachments");

    assert_eq!(attachments.len(), 1);
    assert_eq!(attachments[0].filename, "report.xml.gz");
    assert!(failed_attachments.is_empty());
}

#[test]
fn decodes_base64_attachment_with_invalid_symbol() {
    let raw = b"From: reports@example.test\r\nSubject: DMARC\r\nContent-Type: multipart/mixed; boundary=\"x\"\r\n\r\n--x\r\nContent-Type: application/xml; name=\"report.xml\"\r\nContent-Disposition: attachment; filename=\"report.xml\"\r\nContent-Transfer-Encoding: base64\r\n\r\nPGZv#bz48L2Zvbz4=\r\n--x--\r\n";
    let parsed = read_message(raw).expect("parse mail");
    let mut attachments: Vec<MailboxAttachment> = Vec::new();
    let mut failed_attachments: Vec<String> = Vec::new();
    collect_attachments(&parsed, &mut attachments, &mut failed_attachments)
        .expect("collect attachments");

    assert_eq!(attachments.len(), 1);
    assert_eq!(attachments[0].bytes, b"<foo></foo>");
    assert!(failed_attachments.is_empty());
}

#[test]
fn reports_unrecoverable_base64_attachment_without_failing_collection() {
    let raw = b"From: reports@example.test\r\nSubject: DMARC\r\nContent-Type: multipart/mixed; boundary=\"x\"\r\n\r\n--x\r\nContent-Type: application/xml; name=\"report.xml\"\r\nContent-Disposition: attachment; filename=\"report.xml\"\r\nContent-Transfer-Encoding: base64\r\n\r\nA\r\n--x--\r\n";
    let parsed = read_message(raw).expect("parse mail");
    let mut attachments: Vec<MailboxAttachment> = Vec::new();
    let mut failed_attachments: Vec<String> = Vec::new();
    collect_attachments(&parsed, &mut attachments, &mut failed_attachments)
        .expect("collect attachments");

    assert!(attachments.is_empty());
    assert_eq!(failed_attachments.len(), 1);
    assert!(failed_attachments[0].contains("report.xml"));
}

use dmarcontrol::attachments::{
    attachment_filename, collection_fits, decode_lenient_base64, extension_for_mimetype, is_supported_mimetype,
    MailBody, MailPart,
};
use dmarcontrol::error::AppError;
use dmarcontrol::importer::{is_supported_report_filename, payload_documents, InsertSummary};
use dmarcontrol::mailbox::{
    default_max_messages, default_scheduler_interval_minutes, default_since_hours,
    default_unseen_only, env_flag, fetch_batches, imap_search_query, messages_to_fetch,
    parse_u32, required_value, test_result, MailboxConfig, MailboxSettings,
    MailboxSettingsResponse, MailboxVariables,
};
use dmarcontrol::scheduler::{
    empty_status, finish_run, interval_minutes, scheduler_tick, start_run, status_after_poll,
    status_after_save, SchedulerAction, SchedulerObservation,
};

fn settings() -> MailboxSettings {
    MailboxSettings {
        host: " imap.example.com ".to_string(),
        port: 0,
        username: " dmarc ".to_string(),
        password: "pw".to_string(),
        mailbox: " INBOX ".to_string(),
        unseen_only: true,
        mark_seen: false,
        max_messages: 0,
        since_hours: 24,
        scheduler_enabled: false,
        scheduler_interval_minutes: 0,
    }
}

fn mailbox_message(e: AppError) -> String {
    match e {
        AppError::Mailbox(m) => m,
        other => panic!("unexpected error {:?}", other),
    }
}

#[test]
fn settings_validation_errors() {
    let mut s = settings();
    s.host = "  ".to_string();
    assert_eq!(mailbox_message(s.validate().unwrap_err()), "IMAP host is required");
    let mut s = settings();
    s.username = String::new();
    assert_eq!(mailbox_message(s.validate().unwrap_err()), "IMAP username is required");
    let mut s = settings();
    s.password = String::new();
    assert_eq!(mailbox_message(s.validate().unwrap_err()), "IMAP password is required");
    let mut s = settings();
    s.mailbox = " ".to_string();
    assert_eq!(mailbox_message(s.validate().unwrap_err()), "IMAP mailbox is required");
    let mut s = settings();
    s.scheduler_enabled = true;
    s.scheduler_interval_minutes = 4;
    assert_eq!(
        mailbox_message(s.validate().unwrap_err()),
        "Scheduled sync interval must be at least 5 minutes"
    );
    assert!(settings().validate().is_ok());
}

#[test]
fn settings_give_configuration_and_view() {
    let c = settings().to_config().unwrap();
    assert_eq!(c.host, "imap.example.com");
    assert_eq!(c.port, 993);
    assert_eq!(c.username, "dmarc");
    assert_eq!(c.mailbox, "INBOX");
    assert_eq!(c.max_messages, 500);
    let r = settings().redacted();
    assert!(r.configured && r.has_password);
    assert_eq!(r.max_messages, 500);
    assert_eq!(r.scheduler_interval_minutes, 60);
    assert_eq!(r.host, " imap.example.com ");
    let e = MailboxSettingsResponse::empty();
    assert!(!e.configured && e.unseen_only && !e.has_password);
    assert_eq!((e.port, e.mailbox.as_str(), e.max_messages, e.since_hours), (993, "INBOX", 500, 24));
    assert!(default_unseen_only());
    assert_eq!(default_max_messages(), 500);
    assert_eq!(default_since_hours(), 24);
    assert_eq!(default_scheduler_interval_minutes(), 60);
}

fn vars() -> MailboxVariables {
    MailboxVariables {
        host: Some(" imap.example.com ".to_string()),
        port: Some("1993".to_string()),
        username: Some("u".to_string()),
        password: Some(" p ".to_string()),
        mailbox: None,
        unseen_only: Some("No".to_string()),
        mark_seen: Some("YES".to_string()),
        max_messages: Some("many".to_string()),
        since_hours: Some("+48".to_string()),
    }
}

#[test]
fn configuration_from_variables() {
    let c = MailboxConfig::from_variables(&vars()).unwrap();
    assert_eq!((c.host.as_str(), c.port, c.password.as_str(), c.mailbox.as_str()), ("imap.example.com", 1993, "p", "INBOX"));
    assert!(!c.unseen_only && c.mark_seen);
    assert_eq!((c.max_messages, c.since_hours), (500, 48));
    let mut v = vars();
    v.username = Some("  ".to_string());
    assert_eq!(
        mailbox_message(MailboxConfig::from_variables(&v).err().unwrap()),
        "DMARCONTROL_IMAP_USERNAME is required"
    );
    assert_eq!(required_value("K", Some(" v ")).unwrap(), "v");
    assert!(env_flag(Some("On"), false));
    assert!(!env_flag(Some("2"), true));
    assert!(env_flag(None, true));
    assert_eq!(parse_u32("4294967295"), Some(u32::MAX));
    assert_eq!(parse_u32("4294967296"), None);
}

#[test]
fn scan_plan() {
    let c = settings().to_config().unwrap();
    assert_eq!(imap_search_query(&c, "01-Jun-2024"), "UNSEEN SINCE 01-Jun-2024");
    let mut c2 = settings().to_config().unwrap();
    c2.unseen_only = false;
    c2.since_hours = 0;
    assert_eq!(imap_search_query(&c2, "x"), "ALL");
    assert_eq!(messages_to_fetch(&vec![3, 9, 1, 7], 2), vec![9, 7]);
    assert_eq!(messages_to_fetch(&vec![3, 9, 1], 0), vec![9]);
    let ids: Vec<u32> = (1..=120).collect();
    let batches = fetch_batches(&ids);
    assert_eq!(batches.len(), 3);
    assert!(batches[0].starts_with("1,2,3,"));
    assert!(batches[0].ends_with(",50"));
    assert_eq!(batches[2], (101..=120).map(|n: u32| n.to_string()).collect::<Vec<_>>().join(","));
    let r = test_result(&c, 10, Some(3), 700);
    assert_eq!((r.would_scan, r.matched_count, r.max_messages), (500, 700, 500));
}

#[test]
fn scheduler_decisions() {
    assert_eq!(interval_minutes(1), 5);
    assert_eq!(interval_minutes(90), 90);
    let (next, action) = scheduler_tick(None, SchedulerObservation::Configured { scheduler_enabled: true, interval_minutes: 1 }, 1000);
    assert_eq!(next, Some(1300));
    assert!(matches!(action, SchedulerAction::Run { interval_minutes: 5, next_run_at: 1300 }));
    let (next, action) = scheduler_tick(Some(1300), SchedulerObservation::Configured { scheduler_enabled: true, interval_minutes: 1 }, 1100);
    assert_eq!(next, Some(1300));
    assert!(matches!(action, SchedulerAction::Waiting { interval_minutes: 5, next_run_at: 1300 }));
    let (next, action) = scheduler_tick(Some(1300), SchedulerObservation::Configured { scheduler_enabled: false, interval_minutes: 60 }, 1100);
    assert_eq!(next, None);
    assert!(matches!(action, SchedulerAction::Disabled { interval_minutes: 60 }));
    let (next, action) = scheduler_tick(Some(5), SchedulerObservation::ReadFailed, 1100);
    assert_eq!(next, Some(5));
    assert!(matches!(action, SchedulerAction::Warn));
    let (next, action) = scheduler_tick(Some(5), SchedulerObservation::NoSettings, 1100);
    assert_eq!(next, None);
    assert!(matches!(action, SchedulerAction::Reset));
}

fn leaf(mimetype: &str) -> MailPart {
    MailPart {
        mimetype: mimetype.to_string(),
        is_attachment: false,
        disposition_filename: None,
        content_type_name: None,
        content_description: None,
        body: MailBody::Plain { raw: b"x".to_vec() },
        subparts: Vec::new(),
    }
}

#[test]
fn attachment_names_and_types() {
    assert!(is_supported_mimetype("Application/ZIP"));
    assert!(!is_supported_mimetype("text/plain"));
    assert_eq!(extension_for_mimetype("application/x-gzip"), "gz");
    assert_eq!(extension_for_mimetype("text/xml"), "xml");
    assert_eq!(attachment_filename(&leaf("application/zip"), 3).unwrap(), "dmarc-attachment-3.zip");
    assert!(attachment_filename(&leaf("text/plain"), 1).is_none());
    let mut described = leaf("text/plain");
    described.content_description = Some("DMARC Aggregate Report".to_string());
    assert_eq!(attachment_filename(&described, 2).unwrap(), "dmarc-attachment-2.xml");
    let mut named = leaf("text/plain");
    named.content_type_name = Some("n.xml".to_string());
    named.disposition_filename = Some("d.xml".to_string());
    assert_eq!(attachment_filename(&named, 1).unwrap(), "d.xml");
    assert_eq!(decode_lenient_base64(b"PGZv#bz48L2Zvbz4").unwrap(), b"<foo></foo>".to_vec());
    assert_eq!(decode_lenient_base64(b"-_8").unwrap(), vec![0xfb, 0xff]);
    assert!(decode_lenient_base64(b"A").is_err());
}

#[test]
fn report_files() {
    assert!(is_supported_report_filename("Report.XML"));
    assert!(is_supported_report_filename("a.xml.gz"));
    assert!(is_supported_report_filename("a.zip"));
    assert!(!is_supported_report_filename("a.txt"));
    let (docs, err) = payload_documents("r.xml", b"<feedback/>");
    assert_eq!(docs, vec!["<feedback/>".to_string()]);
    assert!(err.is_none());
    let (docs, err) = payload_documents("r.xml", &[0xff, 0xfe]);
    assert!(docs.is_empty());
    match err.unwrap() {
        AppError::InvalidReport(m) => assert!(m.starts_with("report is not valid UTF-8: ")),
        other => panic!("unexpected error {:?}", other),
    }
    let gz: Vec<u8> = vec![
        0x1f, 0x8b, 0x08, 0x00, 0x00, 0x00, 0x00, 0x00, 0x00, 0xff, 0x03, 0x00, 0x00, 0x00, 0x00,
        0x00, 0x00, 0x00, 0x00, 0x00,
    ];
    let (docs, err) = payload_documents("r.XML.GZ", &gz);
    assert_eq!(docs, vec![String::new()]);
    assert!(err.is_none());
    let (docs, err) = payload_documents("r.zip", b"not a zip");
    assert!(docs.is_empty());
    assert!(matches!(err, Some(AppError::Zip(_))));
    let (_, err) = payload_documents("r.gz", b"not gzip");
    assert!(matches!(err, Some(AppError::Io(_))));
    let mut summary = InsertSummary::new();
    summary.record(1);
    summary.record(0);
    summary.record(3);
    assert_eq!((summary.imported, summary.duplicates), (2, 1));
}

#[test]
fn scheduled_runs_an_interval_apart() {
    let observed = || SchedulerObservation::Configured { scheduler_enabled: true, interval_minutes: 10 };
    let mut next = None;
    let mut runs = Vec::new();
    for now in (0..3600).step_by(30) {
        let (n, action) = scheduler_tick(next, observed(), now);
        next = n;
        if matches!(action, SchedulerAction::Run { .. }) {
            runs.push(now);
        }
    }
    assert_eq!(runs, vec![0, 600, 1200, 1800, 2400, 3000]);
}

#[test]
fn scheduler_status_changes() {
    let status = status_after_poll(empty_status(), &SchedulerAction::Waiting { interval_minutes: 5, next_run_at: 900 });
    assert!(status.enabled && !status.running);
    assert_eq!((status.interval_minutes, status.next_run_at), (5, Some(900)));
    let (status, starts) = start_run(status, 5, 1200, 900, false);
    assert!(!starts && !status.running);
    assert_eq!(status.next_run_at, Some(1200));
    assert_eq!(status.last_started_at, None);
    let (status, starts) = start_run(status, 5, 1200, 900, true);
    assert!(starts && status.running);
    assert_eq!(status.last_started_at, Some(900));
    let status = finish_run(status, 5, 1200, 950, Err("mailbox error: IMAP host is required".to_string()));
    assert!(!status.running);
    assert_eq!(status.last_success, Some(false));
    assert_eq!(status.last_error.as_deref(), Some("mailbox error: IMAP host is required"));
    assert_eq!(status.last_finished_at, Some(950));
    let status = status_after_poll(status, &SchedulerAction::Disabled { interval_minutes: 60 });
    assert!(!status.enabled);
    assert_eq!(status.interval_minutes, 60);
    let status = status_after_save(status, true, 2, 1000);
    assert!(status.enabled);
    assert_eq!((status.interval_minutes, status.next_run_at), (5, Some(1200)));
    let status = status_after_save(empty_status(), true, 30, 1000);
    assert_eq!(status.next_run_at, Some(1030));
    let status = status_after_save(status, false, 30, 1000);
    assert_eq!(status.next_run_at, None);
    assert!(!status.running);
    let status = status_after_poll(status, &SchedulerAction::Reset);
    assert_eq!(status.interval_minutes, 0);
}

#[test]
fn attachment_collection_bounds() {
    let part = MailPart { subparts: vec![leaf("text/plain"), leaf("application/zip")], ..leaf("multipart/mixed") };
    assert!(collection_fits(&part, 0));
    assert!(collection_fits(&part, usize::MAX - 3));
    assert!(!collection_fits(&part, usize::MAX - 2));
    assert!(!collection_fits(&leaf("text/plain"), usize::MAX));
}

#[test]
fn report_names_in_any_case() {
    assert!(is_supported_report_filename("Report.XML.GZ"));
    assert!(is_supported_report_filename("AGGREGATE.ZIP"));
    assert!(!is_supported_report_filename("notes.TXT"));
}

#[test]
fn runs_stay_apart_when_the_clock_goes_back() {
    let observed = || SchedulerObservation::Configured { scheduler_enabled: true, interval_minutes: 5 };
    let (next, action) = scheduler_tick(None, observed(), 10_000);
    assert!(matches!(action, SchedulerAction::Run { next_run_at: 10_300, .. }));
    let (next, action) = scheduler_tick(next, observed(), 5_000);
    assert!(matches!(action, SchedulerAction::Waiting { next_run_at: 10_300, .. }));
    let (_, action) = scheduler_tick(next, observed(), 10_299);
    assert!(matches!(action, SchedulerAction::Waiting { .. }));
}

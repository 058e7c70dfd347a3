use peroxide::registry::{send_progress, ProgressBatch, ScanStore};
use peroxide::types::{
    FileInfo, ProgressUpdate, ScanResult, ScanStats, ScanStatus, Severity, Threat,
};
use peroxide::upload::submit_scan;

fn info(name: &str) -> FileInfo {
    FileInfo { filename: name.to_string(), size: 3, sha256: "00ff".to_string() }
}

fn threat(id: &str, severity: Severity) -> Threat {
    Threat {
        threat_type: "kind".to_string(),
        details: "details".to_string(),
        severity,
        threat_id: id.to_string(),
    }
}

fn initial(name: &str) -> ScanResult {
    ScanResult {
        status: ScanStatus::Scanning,
        threats: vec![],
        stats: ScanStats { threats_found: 0, malicious: 0, suspicious: 0, neutral: 0 },
        logs: vec![],
        file_info: Some(info(name)),
    }
}

#[test]
fn new_registry_is_empty() {
    let store = ScanStore::new();
    assert!(!store.contains("scan-1"));
    assert_eq!(store.get("scan-1"), None);
    assert_eq!(store.poll("scan-1", 0), None);
}

#[test]
fn create_seeds_a_scanning_record() {
    let mut store = ScanStore::new();
    assert!(store.create("scan-1", info("a.txt")));
    assert!(store.contains("scan-1"));
    assert_eq!(store.get("scan-1"), Some(initial("a.txt")));
}

#[test]
fn new_record_has_an_empty_log_and_no_findings() {
    let mut store = ScanStore::new();
    submit_scan("scan-1", info("a.txt"), &mut store);
    let record = store.get("scan-1").unwrap();
    assert_eq!(record.status, ScanStatus::Scanning);
    assert!(record.logs.is_empty());
    assert!(record.threats.is_empty());
    assert_eq!(
        record.stats,
        ScanStats { threats_found: 0, malicious: 0, suspicious: 0, neutral: 0 }
    );
    assert_eq!(
        store.poll("scan-1", 0),
        Some(ProgressBatch { updates: vec![], cursor: 0, finished: false })
    );
}

#[test]
fn create_refuses_an_identifier_in_use() {
    let mut store = ScanStore::new();
    assert!(store.create("scan-1", info("a.txt")));
    send_progress("scan-1", 10, "busy", &mut store);
    let before = store.get("scan-1");
    assert!(!store.create("scan-1", info("b.txt")));
    assert_eq!(store.get("scan-1"), before);
}

#[test]
fn submit_scan_answers_with_the_identifier() {
    let mut store = ScanStore::new();
    let response = submit_scan("scan-7", info("a.txt"), &mut store).unwrap();
    assert_eq!(response.scan_id, "scan-7");
    assert_eq!(store.get("scan-7").unwrap().status, ScanStatus::Scanning);
    assert_eq!(submit_scan("scan-7", info("other"), &mut store), None);
    assert_eq!(store.get("scan-7"), Some(initial("a.txt")));
}

#[test]
fn send_progress_appends_one_line() {
    let mut store = ScanStore::new();
    store.create("scan-1", info("a.txt"));
    send_progress("scan-1", 10, "Reading file content...", &mut store);
    send_progress("scan-1", 30, "Scanning file headers...", &mut store);
    let record = store.get("scan-1").unwrap();
    assert_eq!(
        record.logs,
        vec![
            "[10%] Reading file content...".to_string(),
            "[30%] Scanning file headers...".to_string(),
        ]
    );
    assert_eq!(record.status, ScanStatus::Scanning);
    assert_eq!(record.threats, vec![]);
}

#[test]
fn send_progress_to_unknown_scan_changes_nothing() {
    let mut store = ScanStore::new();
    store.create("scan-1", info("a.txt"));
    send_progress("scan-2", 10, "lost", &mut store);
    assert!(!store.contains("scan-2"));
    assert_eq!(store.get("scan-1"), Some(initial("a.txt")));
}

#[test]
fn records_do_not_disturb_each_other() {
    let mut store = ScanStore::new();
    store.create("scan-1", info("a.txt"));
    store.create("scan-2", info("b.txt"));
    send_progress("scan-2", 60, "two", &mut store);
    assert_eq!(store.get("scan-1"), Some(initial("a.txt")));
    assert_eq!(store.get("scan-2").unwrap().logs, vec!["[60%] two".to_string()]);
}

#[test]
fn append_line_takes_a_line_as_it_is() {
    let mut store = ScanStore::new();
    store.create("scan-1", info("a.txt"));
    store.append_line("scan-1", "free text".to_string());
    assert_eq!(store.get("scan-1").unwrap().logs, vec!["free text".to_string()]);
}

#[test]
fn finalize_keeps_the_log_and_sets_the_rest() {
    let mut store = ScanStore::new();
    store.create("scan-1", info("a.txt"));
    send_progress("scan-1", 100, "Scan complete!", &mut store);
    let threats = vec![threat("S001", Severity::Suspicious), threat("N", Severity::Neutral)];
    store.finalize("scan-1", threats.clone(), info("a.txt"));
    let record = store.get("scan-1").unwrap();
    assert_eq!(record.status, ScanStatus::Suspicious);
    assert_eq!(record.threats, threats);
    assert_eq!(
        record.stats,
        ScanStats { threats_found: 2, malicious: 0, suspicious: 1, neutral: 1 }
    );
    assert_eq!(record.logs, vec!["[100%] Scan complete!".to_string()]);
    assert_eq!(record.file_info, Some(info("a.txt")));
}

#[test]
fn finalize_gives_each_verdict() {
    let mut store = ScanStore::new();
    store.create("safe", info("a"));
    store.create("neutral", info("b"));
    store.create("unsafe", info("c"));
    store.finalize("safe", vec![], info("a"));
    store.finalize("neutral", vec![threat("N", Severity::Neutral)], info("b"));
    store.finalize(
        "unsafe",
        vec![threat("S", Severity::Suspicious), threat("M", Severity::Malicious)],
        info("c"),
    );
    assert_eq!(store.get("safe").unwrap().status, ScanStatus::Safe);
    assert_eq!(store.get("neutral").unwrap().status, ScanStatus::Suspicious);
    assert_eq!(store.get("unsafe").unwrap().status, ScanStatus::Unsafe);
}

#[test]
fn finalize_of_unknown_scan_starts_with_an_empty_log() {
    let mut store = ScanStore::new();
    store.finalize("scan-9", vec![threat("M", Severity::Malicious)], info("z"));
    let record = store.get("scan-9").unwrap();
    assert_eq!(record.status, ScanStatus::Unsafe);
    assert_eq!(record.logs, Vec::<String>::new());
    assert_eq!(record.stats.threats_found, 1);
}

#[test]
fn fail_sets_error_and_logs_the_reason() {
    let mut store = ScanStore::new();
    store.create("scan-1", info("a.txt"));
    store.fail("scan-1", "Error reading file: gone".to_string());
    let record = store.get("scan-1").unwrap();
    assert_eq!(record.status, ScanStatus::Error);
    assert_eq!(record.logs, vec!["Error reading file: gone".to_string()]);
    assert_eq!(record.threats, vec![]);
    store.fail("scan-2", "nobody".to_string());
    assert!(!store.contains("scan-2"));
}

#[test]
fn reading_a_result_twice_gives_the_same_record() {
    let mut store = ScanStore::new();
    store.create("scan-1", info("a.txt"));
    store.finalize("scan-1", vec![threat("M", Severity::Malicious)], info("a.txt"));
    let first = store.get("scan-1");
    let second = store.get("scan-1");
    assert_eq!(first, second);
    assert_eq!(format!("{:?}", first), format!("{:?}", second));
}

#[test]
fn unknown_scan_has_no_result() {
    let mut store = ScanStore::new();
    store.create("scan-1", info("a.txt"));
    assert_eq!(store.get("scan-unknown"), None);
    assert_eq!(store.get(""), None);
    assert_eq!(store.poll("scan-unknown", 0), None);
    assert!(!store.contains("scan-unknown"));
}

#[test]
fn poll_gives_the_entries_behind_the_cursor() {
    let mut store = ScanStore::new();
    store.create("scan-1", info("a.txt"));
    send_progress("scan-1", 10, "Reading file content...", &mut store);
    send_progress("scan-1", 30, "Scanning file headers...", &mut store);
    let batch = store.poll("scan-1", 0).unwrap();
    assert_eq!(
        batch,
        ProgressBatch {
            updates: vec![
                ProgressUpdate { progress: 10, message: "Reading file content...".to_string() },
                ProgressUpdate { progress: 30, message: "Scanning file headers...".to_string() },
            ],
            cursor: 2,
            finished: false,
        }
    );
    let batch = store.poll("scan-1", batch.cursor).unwrap();
    assert_eq!(batch, ProgressBatch { updates: vec![], cursor: 2, finished: false });
    send_progress("scan-1", 60, "Performing signature analysis...", &mut store);
    let batch = store.poll("scan-1", 2).unwrap();
    assert_eq!(
        batch.updates,
        vec![ProgressUpdate {
            progress: 60,
            message: "Performing signature analysis...".to_string()
        }]
    );
    assert_eq!(batch.cursor, 3);
}

#[test]
fn polls_in_a_row_deliver_every_line_once_and_in_order() {
    let mut store = ScanStore::new();
    store.create("scan-1", info("a.txt"));
    let mut cursor = 0;
    let mut seen = vec![];
    for round in 0..6u32 {
        for k in 0..round {
            send_progress("scan-1", round * 10 + k, "step", &mut store);
        }
        let batch = store.poll("scan-1", cursor).unwrap();
        cursor = batch.cursor;
        seen.extend(batch.updates);
    }
    let all = store.poll("scan-1", 0).unwrap();
    assert_eq!(seen, all.updates);
    assert_eq!(cursor, all.cursor);
    assert_eq!(cursor, 15);
}

#[test]
fn poll_reports_the_end_of_a_scan() {
    let mut store = ScanStore::new();
    store.create("scan-1", info("a.txt"));
    store.finalize("scan-1", vec![], info("a.txt"));
    let batch = store.poll("scan-1", 0).unwrap();
    assert_eq!(batch, ProgressBatch { updates: vec![], cursor: 0, finished: true });
    store.create("scan-2", info("b.txt"));
    store.fail("scan-2", "Error reading file: gone".to_string());
    let batch = store.poll("scan-2", 0).unwrap();
    assert!(batch.finished);
    assert_eq!(batch.updates.len(), 1);
    assert_eq!(batch.updates[0].progress, 0);
    assert_eq!(batch.updates[0].message, "Error reading file: gone");
}

#[test]
fn cursor_beyond_the_log_stays_where_it_is() {
    let mut store = ScanStore::new();
    store.create("scan-1", info("a.txt"));
    let batch = store.poll("scan-1", 5).unwrap();
    assert_eq!(batch, ProgressBatch { updates: vec![], cursor: 5, finished: false });
}

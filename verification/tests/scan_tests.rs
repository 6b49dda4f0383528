use feedscan::scan::{
    assemble_scan_result, failure_status, is_loggable, poll_outcome, PollOutcome, scan_finish_status, scan_run_name, scan_stats, stop_outcome,
    ScanStats, Vulnerability,
};

fn vuln(id: &str, severity: &str) -> Vulnerability {
    Vulnerability {
        id: id.to_string(),
        title: "t".to_string(),
        severity: severity.to_string(),
        description: String::new(),
        poc: None,
        remediation: None,
    }
}

#[test]
fn stats_count_each_severity() {
    let vs = vec![
        vuln("1", "critical"),
        vuln("2", "high"),
        vuln("3", "high"),
        vuln("4", "medium"),
        vuln("5", "info"),
        vuln("6", "High"),
    ];
    let s = scan_stats(&vs);
    assert_eq!(
        s,
        ScanStats { total_vulnerabilities: 6, critical: 1, high: 2, medium: 1, low: 0 }
    );
    assert!(s.critical + s.high + s.medium + s.low <= s.total_vulnerabilities);
}

#[test]
fn result_is_assembled_with_stats() {
    let r = assemble_scan_result(
        7,
        "run".to_string(),
        vec!["https://t".to_string()],
        vec![vuln("a", "low")],
        None,
        "2024-01-01".to_string(),
    );
    assert_eq!(r.id, 7);
    assert_eq!(r.results_path, "");
    assert_eq!(r.stats.low, 1);
    assert_eq!(r.stats.total_vulnerabilities, 1);
    let r2 = assemble_scan_result(1, "x".to_string(), vec![], vec![], Some("/p".to_string()), "c".to_string());
    assert_eq!(r2.results_path, "/p");
}

#[test]
fn run_name_defaults_to_timestamp() {
    assert_eq!(scan_run_name(&Some("mine".to_string()), "20240101_000000"), "mine");
    assert_eq!(scan_run_name(&None, "20240101_120000"), "scan_20240101_120000");
}

#[test]
fn finish_status_by_success() {
    assert_eq!(scan_finish_status(true), ("completed".to_string(), "扫描完成".to_string()));
    assert_eq!(scan_finish_status(false), ("failed".to_string(), "扫描失败".to_string()));
}

#[test]
fn stop_outcomes() {
    let found = stop_outcome(true);
    assert_eq!(found.status, "stopped");
    assert_eq!(found.message, "用户停止");
    assert_eq!(found.log_level, "info");
    assert_eq!(found.log_message, "扫描已由用户停止");
    let missing = stop_outcome(false);
    assert_eq!(missing.status, "stopped");
    assert_eq!(missing.log_level, "warning");
    assert_eq!(missing.message, "用户停止（嵌入 Python 执行中，无法强制终止）");
}

#[test]
fn blank_lines_are_not_logged() {
    assert!(is_loggable("  hello "));
    assert!(!is_loggable(" \t "));
    assert!(!is_loggable(""));
}

#[test]
fn stopped_scan_stays_stopped() {
    assert_eq!(failure_status("stopped", "进程未找到"), None);
    assert_eq!(
        failure_status("running", "进程未找到"),
        Some(("failed".to_string(), "进程未找到".to_string()))
    );
}

#[test]
fn polls_of_a_scan_process() {
    assert_eq!(poll_outcome(None), PollOutcome::Failed("进程未找到".to_string()));
    assert_eq!(poll_outcome(Some(Ok(Some(true)))), PollOutcome::Finished(true));
    assert_eq!(poll_outcome(Some(Ok(Some(false)))), PollOutcome::Finished(false));
    assert_eq!(poll_outcome(Some(Ok(None))), PollOutcome::Wait);
    assert_eq!(
        poll_outcome(Some(Err("boom".to_string()))),
        PollOutcome::Failed("等待进程失败: boom".to_string())
    );
}

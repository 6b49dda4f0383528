//! The records of a security scan: its configuration, the vulnerabilities it
//! found, their statistics and its log lines.

use vstd::prelude::*;
use crate::text::{chars_of, str_eq, trim, trim_chars};

verus! {

/// An optional string viewed as an optional sequence of characters.
pub open spec fn opt_view(o: Option<String>) -> Option<Seq<char>> {
    match o {
        Some(s) => Some(s@),
        None => None,
    }
}

/// What a scan is started with.
#[derive(Debug, Clone, PartialEq)]
pub struct ScanConfig {
    pub targets: Vec<String>,
    pub instruction: Option<String>,
    pub run_name: Option<String>,
    pub llm_provider: String,
    pub llm_api_key: String,
    pub llm_api_base: Option<String>,
    pub non_interactive: bool,
}

/// A vulnerability reported by a scan.
#[derive(Debug, Clone, PartialEq)]
pub struct Vulnerability {
    pub id: String,
    pub title: String,
    pub severity: String,
    pub description: String,
    pub poc: Option<String>,
    pub remediation: Option<String>,
}

/// The mathematical value of a [`Vulnerability`].
pub struct VulnerabilityView {
    pub id: Seq<char>,
    pub title: Seq<char>,
    pub severity: Seq<char>,
    pub description: Seq<char>,
    pub poc: Option<Seq<char>>,
    pub remediation: Option<Seq<char>>,
}

impl View for Vulnerability {
    type V = VulnerabilityView;

    open spec fn view(&self) -> VulnerabilityView {
        VulnerabilityView {
            id: self.id@,
            title: self.title@,
            severity: self.severity@,
            description: self.description@,
            poc: opt_view(self.poc),
            remediation: opt_view(self.remediation),
        }
    }
}

/// A sequence of vulnerabilities viewed value by value.
pub open spec fn vuln_views(v: Seq<Vulnerability>) -> Seq<VulnerabilityView> {
    v.map_values(|x: Vulnerability| x@)
}

/// Counts of the vulnerabilities of a scan, by severity.
#[derive(Debug, Clone, Copy, PartialEq, Eq)]
pub struct ScanStats {
    pub total_vulnerabilities: i32,
    pub critical: i32,
    pub high: i32,
    pub medium: i32,
    pub low: i32,
}

/// The result of a scan as it is shown to the user.
#[derive(Debug, Clone, PartialEq)]
pub struct ScanResult {
    pub id: i64,
    pub run_name: String,
    pub targets: Vec<String>,
    pub vulnerabilities: Vec<Vulnerability>,
    pub stats: ScanStats,
    pub results_path: String,
    pub created_at: String,
}

/// One line of a scan's log.
#[derive(Debug, Clone, PartialEq)]
pub struct ScanLog {
    pub id: i64,
    pub scan_id: i64,
    pub timestamp: String,
    pub level: String,
    pub message: String,
}

/// What the result parser needs to know of a scan.
#[derive(Debug, Clone, PartialEq)]
pub struct ScanInfo {
    pub run_name: String,
}


// ---------------------------------------------------------------------------
// Statistics and results
// ---------------------------------------------------------------------------

/// How many of the vulnerabilities have the given severity.
pub open spec fn severity_count(vs: Seq<Vulnerability>, severity: Seq<char>) -> nat
    decreases vs.len(),
{
    if vs.len() == 0 {
        0
    } else {
        severity_count(vs.drop_last(), severity) + if vs.last().severity@ == severity {
            1nat
        } else {
            0nat
        }
    }
}

proof fn lemma_severity_count_bound(vs: Seq<Vulnerability>, severity: Seq<char>)
    ensures
        severity_count(vs, severity) <= vs.len(),
    decreases vs.len(),
{
    if vs.len() > 0 {
        lemma_severity_count_bound(vs.drop_last(), severity);
    }
}

fn count_severity(vs: &Vec<Vulnerability>, severity: &str) -> (res: usize)
    ensures
        res == severity_count(vs@, severity@),
{
    let mut n: usize = 0;
    let mut i: usize = 0;
    while i < vs.len()
        invariant
            i <= vs@.len(),
            n == severity_count(vs@.take(i as int), severity@),
            n <= i,
        decreases vs@.len() - i,
    {
        proof {
            assert(vs@.take(i + 1).drop_last() == vs@.take(i as int));
            assert(vs@.take(i + 1).last() == vs@[i as int]);
        }
        if str_eq(vs[i].severity.as_str(), severity) {
            n = n + 1;
        }
        i = i + 1;
    }
    proof {
        assert(vs@.take(vs@.len() as int) == vs@);
    }
    n
}

/// The statistics of a list of vulnerabilities: the total and the counts of
/// `critical`, `high`, `medium` and `low` ones, each converted to `i32` as
/// the number is stored.
pub open spec fn stats_of(vs: Seq<Vulnerability>) -> ScanStats {
    ScanStats {
        total_vulnerabilities: vs.len() as i32,
        critical: severity_count(vs, "critical"@) as i32,
        high: severity_count(vs, "high"@) as i32,
        medium: severity_count(vs, "medium"@) as i32,
        low: severity_count(vs, "low"@) as i32,
    }
}

proof fn lemma_severity_counts_sum(vs: Seq<Vulnerability>)
    ensures
        severity_count(vs, "critical"@) + severity_count(vs, "high"@) + severity_count(vs, "medium"@)
            + severity_count(vs, "low"@) <= vs.len(),
    decreases vs.len(),
{
    reveal_strlit("critical");
    reveal_strlit("high");
    reveal_strlit("medium");
    reveal_strlit("low");
    if vs.len() > 0 {
        lemma_severity_counts_sum(vs.drop_last());
        assert("critical"@.len() == 8);
        assert("high"@.len() == 4);
        assert("medium"@.len() == 6);
        assert("low"@.len() == 3);
        let sev = vs.last().severity@;
        assert(sev == "critical"@ ==> sev.len() == 8);
        assert(sev == "high"@ ==> sev.len() == 4);
        assert(sev == "medium"@ ==> sev.len() == 6);
        assert(sev == "low"@ ==> sev.len() == 3);
    }
}

/// The four severities counted are distinct, so a scan never counts more
/// critical, high, medium and low vulnerabilities together than it has.
pub proof fn lemma_stats_within_total(vs: Seq<Vulnerability>)
    ensures
        severity_count(vs, "critical"@) + severity_count(vs, "high"@) + severity_count(vs, "medium"@)
            + severity_count(vs, "low"@) <= vs.len(),
        vs.len() <= i32::MAX ==> stats_of(vs).critical + stats_of(vs).high + stats_of(vs).medium
            + stats_of(vs).low <= stats_of(vs).total_vulnerabilities,
{
    lemma_severity_counts_sum(vs);
    lemma_severity_count_bound(vs, "critical"@);
    lemma_severity_count_bound(vs, "high"@);
    lemma_severity_count_bound(vs, "medium"@);
    lemma_severity_count_bound(vs, "low"@);
}

/// Counts the vulnerabilities of a scan by severity.
pub fn scan_stats(vs: &Vec<Vulnerability>) -> (res: ScanStats)
    ensures
        res == stats_of(vs@),
{
    let total = vs.len();
    let critical = count_severity(vs, "critical");
    let high = count_severity(vs, "high");
    let medium = count_severity(vs, "medium");
    let low = count_severity(vs, "low");
    ScanStats {
        total_vulnerabilities: total as i32,
        critical: critical as i32,
        high: high as i32,
        medium: medium as i32,
        low: low as i32,
    }
}

/// Puts a scan's result together from what is stored of it: a missing
/// results path reads as empty, and the statistics are counted.
pub fn assemble_scan_result(
    id: i64,
    run_name: String,
    targets: Vec<String>,
    vulnerabilities: Vec<Vulnerability>,
    results_path: Option<String>,
    created_at: String,
) -> (res: ScanResult)
    ensures
        res.id == id,
        res.run_name == run_name,
        res.targets == targets,
        res.vulnerabilities == vulnerabilities,
        res.stats == stats_of(vulnerabilities@),
        res.results_path@ == match results_path {
            Some(p) => p@,
            None => Seq::<char>::empty(),
        },
        res.created_at == created_at,
{
    let stats = scan_stats(&vulnerabilities);
    ScanResult {
        id,
        run_name,
        targets,
        vulnerabilities,
        stats,
        results_path: match results_path {
            Some(p) => p,
            None => String::new(),
        },
        created_at,
    }
}

/// A scan without a name is named `scan_` and the time it was created.
pub open spec fn run_name_for(run_name: Option<Seq<char>>, stamp: Seq<char>) -> Seq<char> {
    match run_name {
        Some(n) => n,
        None => "scan_"@ + stamp,
    }
}

/// The name a new scan is stored under; `stamp` is the creation time as
/// `%Y%m%d_%H%M%S`.
pub fn scan_run_name(run_name: &Option<String>, stamp: &str) -> (res: String)
    ensures
        res@ == run_name_for(opt_view(*run_name), stamp@),
{
    match run_name {
        Some(n) => n.clone(),
        None => {
            let mut s = String::from_str("scan_");
            s.append(stamp);
            s
        },
    }
}

// ---------------------------------------------------------------------------
// Status changes
// ---------------------------------------------------------------------------

/// The status and message a scan ends with, by whether its process
/// succeeded.
pub open spec fn finish_status(success: bool) -> (Seq<char>, Seq<char>) {
    if success {
        ("completed"@, "扫描完成"@)
    } else {
        ("failed"@, "扫描失败"@)
    }
}

/// The status and message a scan ends with.
pub fn scan_finish_status(success: bool) -> (res: (String, String))
    ensures
        (res.0@, res.1@) == finish_status(success),
{
    if success {
        (String::from_str("completed"), String::from_str("扫描完成"))
    } else {
        (String::from_str("failed"), String::from_str("扫描失败"))
    }
}

/// What stopping a scan records and announces.
#[derive(Debug, Clone, PartialEq)]
pub struct StopOutcome {
    pub status: String,
    pub message: String,
    pub log_level: String,
    pub log_message: String,
}

/// What stopping a scan records: a scan whose process was found is killed
/// and reported stopped; otherwise it may still be running in the embedded
/// interpreter, which cannot be stopped, and it is only marked stopped.
pub open spec fn stop_outcome_of(found: bool) -> (Seq<char>, Seq<char>, Seq<char>, Seq<char>) {
    if found {
        ("stopped"@, "用户停止"@, "info"@, "扫描已由用户停止"@)
    } else {
        (
            "stopped"@,
            "用户停止（嵌入 Python 执行中，无法强制终止）"@,
            "warning"@,
            "扫描标记为停止，但嵌入 Python 执行可能仍在进行中"@,
        )
    }
}

/// What stopping a scan records and announces.
pub fn stop_outcome(found: bool) -> (res: StopOutcome)
    ensures
        (res.status@, res.message@, res.log_level@, res.log_message@) == stop_outcome_of(found),
{
    if found {
        StopOutcome {
            status: String::from_str("stopped"),
            message: String::from_str("用户停止"),
            log_level: String::from_str("info"),
            log_message: String::from_str("扫描已由用户停止"),
        }
    } else {
        StopOutcome {
            status: String::from_str("stopped"),
            message: String::from_str("用户停止（嵌入 Python 执行中，无法强制终止）"),
            log_level: String::from_str("warning"),
            log_message: String::from_str("扫描标记为停止，但嵌入 Python 执行可能仍在进行中"),
        }
    }
}

/// The status a scan takes when running it fails with `error`: a scan the
/// user has stopped stays stopped; any other is marked failed with the
/// error as its message.
pub open spec fn status_after_failure(current: Seq<char>, error: Seq<char>) -> Option<(Seq<char>, Seq<char>)> {
    if current == "stopped"@ {
        None
    } else {
        Some(("failed"@, error))
    }
}

/// The status a scan takes when running it fails: `None` when it keeps its
/// status.
pub fn failure_status(current: &str, error: &str) -> (res: Option<(String, String)>)
    ensures
        match (res, status_after_failure(current@, error@)) {
            (Some((s, m)), Some((t, n))) => s@ == t && m@ == n,
            (None, None) => true,
            _ => false,
        },
{
    if str_eq(current, "stopped") {
        None
    } else {
        Some((String::from_str("failed"), String::from_str(error)))
    }
}

/// What a poll of a running scan's process finds.
#[derive(Debug, Clone, PartialEq)]
pub enum PollOutcome {
    /// The process has exited, successfully or not; it leaves the process
    /// table.
    Finished(bool),
    /// The process is still running: poll again.
    Wait,
    /// The scan fails with this error.
    Failed(String),
}

/// How long to wait before each poll of a scan's process, in milliseconds.
pub const SCAN_POLL_MS: u64 = 500;

/// What a poll finds, from what asking the process table gave: `None` when
/// the scan has no process there (the scan fails: `进程未找到`), else
/// whether asking the process worked (if not, the scan fails with the error
/// after `等待进程失败: `) and, if it did, whether it has exited and with
/// what success.
pub fn poll_outcome(wait: Option<Result<Option<bool>, String>>) -> (res: PollOutcome)
    ensures
        match wait {
            None => res matches PollOutcome::Failed(m) && m@ == "进程未找到"@,
            Some(Ok(Some(success))) => res == PollOutcome::Finished(success),
            Some(Ok(None)) => res == PollOutcome::Wait,
            Some(Err(e)) => res matches PollOutcome::Failed(m) && m@ == "等待进程失败: "@ + e@,
        },
{
    match wait {
        None => PollOutcome::Failed(String::from_str("进程未找到")),
        Some(Ok(Some(success))) => PollOutcome::Finished(success),
        Some(Ok(None)) => PollOutcome::Wait,
        Some(Err(e)) => {
            let mut m = String::from_str("等待进程失败: ");
            m.append(e.as_str());
            PollOutcome::Failed(m)
        },
    }
}

/// An output line is logged when it is not blank; it is logged as it is.
pub fn is_loggable(line: &str) -> (res: bool)
    ensures
        res == (trim(line@).len() > 0),
{
    let cs = chars_of(line);
    trim_chars(cs.as_slice()).len() > 0
}

} // verus!

//! What the scan manager stores of a scan and reads back: the values of a
//! new scan's row, the targets kept as a JSON array, and a scan's result put
//! together from its stored row and vulnerabilities.

use vstd::prelude::*;
use crate::scan::{
    assemble_scan_result, opt_view, run_name_for, scan_run_name, stats_of, ScanConfig, ScanResult,
    Vulnerability,
};
use crate::text::{has_prefix, string_views};

verus! {

// ---------------------------------------------------------------------------
// Targets as JSON
// ---------------------------------------------------------------------------

/// The JSON text `serde_json::to_string` writes for a list of strings.
pub uninterp spec fn strings_json(v: Seq<Seq<char>>) -> Seq<char>;

/// What `serde_json::from_str::<Vec<String>>` reads from a text: the list
/// of strings, or nothing when the text is not a JSON array of strings.
pub uninterp spec fn json_strings(text: Seq<char>) -> Option<Seq<Seq<char>>>;

/// `serde_json::to_string` on a list of strings. The text is named; what is
/// stated of it is that reading it back gives the same strings. Writing a
/// list of strings cannot fail, as it has no map with other than string
/// keys and no `Serialize` impl that fails.
#[verifier::external_body]
fn strings_to_json(v: &Vec<String>) -> (res: String)
    ensures
        res@ == strings_json(string_views(v@)),
        json_strings(res@) == Some(string_views(v@)),
{
    serde_json::to_string(v).unwrap()
}

/// `serde_json::from_str::<Vec<String>>`, with `None` for a text that is not
/// a JSON array of strings.
#[verifier::external_body]
fn strings_from_json(text: &str) -> (res: Option<Vec<String>>)
    ensures
        match res {
            Some(v) => json_strings(text@) == Some(string_views(v@)),
            None => json_strings(text@) is None,
        },
{
    serde_json::from_str::<Vec<String>>(text).ok()
}

/// The targets read from their stored JSON text; none when it does not read.
pub open spec fn targets_read(text: Seq<char>) -> Seq<Seq<char>> {
    match json_strings(text) {
        Some(v) => v,
        None => Seq::empty(),
    }
}

/// The targets read from their stored JSON text.
pub fn stored_targets(text: &str) -> (res: Vec<String>)
    ensures
        string_views(res@) == targets_read(text@),
{
    match strings_from_json(text) {
        Some(v) => v,
        None => {
            let v: Vec<String> = Vec::new();
            proof {
                assert(string_views(v@) =~= Seq::<Seq<char>>::empty());
            }
            v
        },
    }
}

// ---------------------------------------------------------------------------
// A new scan's row
// ---------------------------------------------------------------------------

/// An ASCII decimal digit.
pub open spec fn is_ascii_digit(c: char) -> bool {
    '0' <= c && c <= '9'
}

/// The shape of a `%Y%m%d_%H%M%S` time stamp: at least fifteen characters,
/// the seventh from the end an underscore, every other one a digit, except
/// that the first may be the sign chrono writes before a year outside
/// `0..=9999`.
pub open spec fn stamp_shaped(s: Seq<char>) -> bool {
    &&& s.len() >= 15
    &&& s[s.len() - 7] == '_'
    &&& forall|i: int|
        0 <= i < s.len() && i != s.len() - 7 ==> is_ascii_digit(#[trigger] s[i]) || (i == 0 && (
        s[i] == '+' || s[i] == '-'))
}

/// `chrono::Utc::now().format("%Y%m%d_%H%M%S")` as a string: the current
/// UTC time. Which time it is depends on the clock and is not stated; its
/// shape is: chrono writes the year as at least four zero-padded digits
/// (with a sign when it lies outside `0..=9999`), then month, day, hour,
/// minute and second as two zero-padded digits each (a leap second as 60),
/// with the underscore between day and hour.
#[verifier::external_body]
fn utc_stamp() -> (res: String)
    ensures
        stamp_shaped(res@),
{
    chrono::Utc::now().format("%Y%m%d_%H%M%S").to_string()
}

/// The name a new scan is stored under: the one asked for, or `scan_`
/// followed by the current time.
pub fn new_run_name(run_name: &Option<String>) -> (res: String)
    ensures
        match run_name {
            Some(n) => res@ == n@,
            None => has_prefix(res@, "scan_"@) && stamp_shaped(res@.skip(5)),
        },
{
    match run_name {
        Some(n) => n.clone(),
        None => {
            let stamp = utc_stamp();
            let res = scan_run_name(run_name, stamp.as_str());
            proof {
                reveal_strlit("scan_");
                assert(res@ == run_name_for(None, stamp@));
                assert(res@.take(5) =~= "scan_"@);
                assert(res@.skip(5) =~= stamp@);
            }
            res
        },
    }
}

/// The values stored for a new scan, which starts as running.
#[derive(Debug, Clone, PartialEq)]
pub struct NewScanRow {
    pub run_name: String,
    pub targets_json: String,
    pub instruction: Option<String>,
    pub llm_provider: String,
}

/// The values stored for a new scan: its name, its targets as a JSON array
/// that reads back as the same targets, its instruction and its model.
pub fn new_scan_row(config: &ScanConfig) -> (res: NewScanRow)
    ensures
        match config.run_name {
            Some(n) => res.run_name@ == n@,
            None => has_prefix(res.run_name@, "scan_"@) && stamp_shaped(res.run_name@.skip(5)),
        },
        res.targets_json@ == strings_json(string_views(config.targets@)),
        targets_read(res.targets_json@) == string_views(config.targets@),
        opt_view(res.instruction) == opt_view(config.instruction),
        res.llm_provider@ == config.llm_provider@,
{
    NewScanRow {
        run_name: new_run_name(&config.run_name),
        targets_json: strings_to_json(&config.targets),
        instruction: match &config.instruction {
            Some(i) => Some(i.clone()),
            None => None,
        },
        llm_provider: config.llm_provider.clone(),
    }
}

/// A scan's result, from its stored row (its name, its targets' JSON text,
/// its results path and creation time) and its vulnerabilities.
pub fn scan_result_from_row(
    id: i64,
    run_name: String,
    targets_json: &str,
    vulnerabilities: Vec<Vulnerability>,
    results_path: Option<String>,
    created_at: String,
) -> (res: ScanResult)
    ensures
        res.id == id,
        res.run_name == run_name,
        string_views(res.targets@) == targets_read(targets_json@),
        res.vulnerabilities == vulnerabilities,
        res.stats == stats_of(vulnerabilities@),
        res.results_path@ == match results_path {
            Some(p) => p@,
            None => Seq::<char>::empty(),
        },
        res.created_at == created_at,
{
    let targets = stored_targets(targets_json);
    assemble_scan_result(id, run_name, targets, vulnerabilities, results_path, created_at)
}

} // verus!

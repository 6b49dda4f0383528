use feedscan::scan::{ScanConfig, Vulnerability};
use feedscan::store::{new_run_name, new_scan_row, scan_result_from_row, stored_targets};

fn config(run_name: Option<&str>) -> ScanConfig {
    ScanConfig {
        targets: vec!["https://a.com".to_string(), "quote\"and\\slash".to_string()],
        instruction: Some("be gentle".to_string()),
        run_name: run_name.map(|s| s.to_string()),
        llm_provider: "openai/gpt-4o".to_string(),
        llm_api_key: "k".to_string(),
        llm_api_base: None,
        non_interactive: true,
    }
}

#[test]
fn targets_are_stored_as_json_and_read_back() {
    let row = new_scan_row(&config(Some("named")));
    assert_eq!(row.targets_json, r#"["https://a.com","quote\"and\\slash"]"#);
    assert_eq!(stored_targets(&row.targets_json), config(None).targets);
    assert_eq!(row.run_name, "named");
    assert_eq!(row.instruction.as_deref(), Some("be gentle"));
    assert_eq!(row.llm_provider, "openai/gpt-4o");
}

#[test]
fn unreadable_targets_read_as_none() {
    assert_eq!(stored_targets("not json"), Vec::<String>::new());
    assert_eq!(stored_targets("[1, 2]"), Vec::<String>::new());
    assert_eq!(stored_targets("[]"), Vec::<String>::new());
}

#[test]
fn unnamed_scan_is_named_by_time() {
    let name = new_run_name(&None);
    assert!(name.starts_with("scan_"));
    let stamp = &name["scan_".len()..];
    assert_eq!(stamp.len(), 15);
    assert_eq!(&stamp[8..9], "_");
    assert!(stamp.chars().filter(|c| *c != '_').all(|c| c.is_ascii_digit()));
    assert_eq!(new_run_name(&Some("x".to_string())), "x");
}

#[test]
fn result_from_stored_row() {
    let v = Vulnerability {
        id: "1".into(),
        title: "t".into(),
        severity: "critical".into(),
        description: String::new(),
        poc: None,
        remediation: None,
    };
    let r = scan_result_from_row(3, "run".into(), r#"["x"]"#, vec![v], None, "now".into());
    assert_eq!(r.targets, vec!["x".to_string()]);
    assert_eq!(r.stats.critical, 1);
    assert_eq!(r.results_path, "");
    let broken = scan_result_from_row(3, "run".into(), "{", vec![], Some("/p".into()), "now".into());
    assert!(broken.targets.is_empty());
    assert_eq!(broken.results_path, "/p");
}

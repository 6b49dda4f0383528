use feedscan::json::JsonValue;
use feedscan::report::{
    report_vulnerabilities_from_texts,
    parse_json_report, parse_markdown_report, parse_vulnerability_json, report_vulnerabilities,
};

fn s(x: &str) -> JsonValue {
    JsonValue::Str(x.to_string())
}

fn obj(members: Vec<(&str, JsonValue)>) -> JsonValue {
    JsonValue::Object(members.into_iter().map(|(k, v)| (k.to_string(), v)).collect())
}

const REPORT: &str = "# Report\nIntro text\n## SQL Injection\nSeverity: High\nDescription: Login form is injectable\nMore details\n### XSS\n严重程度: Low\nReflected in search\n## Info\n";

#[test]
fn markdown_headings_become_findings() {
    let v = parse_markdown_report(REPORT).unwrap();
    assert_eq!(v.len(), 3);
    assert_eq!(v[0].id, "vuln_1");
    assert_eq!(v[0].title, "SQL Injection");
    assert_eq!(v[0].severity, "high");
    assert_eq!(v[0].description, "Login form is injectable");
    assert_eq!(v[0].poc, None);
    assert_eq!(v[1].id, "vuln_2");
    assert_eq!(v[1].title, "XSS");
    assert_eq!(v[1].severity, "low");
    assert_eq!(v[1].description, "Reflected in search");
    assert_eq!(v[2].id, "vuln_3");
    assert_eq!(v[2].title, "Info");
    assert_eq!(v[2].severity, "medium");
    assert_eq!(v[2].description, "");
}

#[test]
fn markdown_numbering_counts_headings() {
    let md = "## a\n## b\n#### not a heading\n### c\n##no space\n";
    let v = parse_markdown_report(md).unwrap();
    let ids: Vec<&str> = v.iter().map(|x| x.id.as_str()).collect();
    assert_eq!(ids, vec!["vuln_1", "vuln_2", "vuln_3"]);
    assert_eq!(v[1].description, "#### not a heading");
}

#[test]
fn markdown_severity_takes_second_colon_piece() {
    let v = parse_markdown_report("## T\nSEVERITY: Critical: yes\nDescription:\n").unwrap();
    assert_eq!(v[0].severity, "critical");
    assert_eq!(v[0].description, "");
}

#[test]
fn markdown_without_headings_is_empty() {
    assert_eq!(parse_markdown_report("just text\n").unwrap().len(), 0);
    assert_eq!(parse_markdown_report("").unwrap().len(), 0);
}

#[test]
fn json_entry_fields_and_aliases() {
    let e = obj(vec![
        ("vuln_id", s("V1")),
        ("name", s("SQLi")),
        ("level", s("HIGH")),
        ("detail", s("d")),
        ("proof_of_concept", s("p")),
        ("fix", s("f")),
    ]);
    let v = parse_vulnerability_json(&e).unwrap();
    assert_eq!(v.id, "V1");
    assert_eq!(v.title, "SQLi");
    assert_eq!(v.severity, "high");
    assert_eq!(v.description, "d");
    assert_eq!(v.poc.as_deref(), Some("p"));
    assert_eq!(v.remediation.as_deref(), Some("f"));
}

#[test]
fn json_entry_defaults() {
    let e = obj(vec![("id", JsonValue::Number("5".to_string())), ("vuln_id", s("ignored"))]);
    let v = parse_vulnerability_json(&e).unwrap();
    assert_eq!(v.id, "unknown");
    assert_eq!(v.title, "未命名漏洞");
    assert_eq!(v.severity, "medium");
    assert_eq!(v.description, "");
    assert_eq!(v.poc, None);
    assert_eq!(v.remediation, None);
    let n = parse_vulnerability_json(&JsonValue::Null).unwrap();
    assert_eq!(n.id, "unknown");
}

#[test]
fn json_report_shapes() {
    let item = obj(vec![("id", s("A")), ("title", s("t"))]);
    let with_vulns = obj(vec![("vulnerabilities", JsonValue::Array(vec![item]))]);
    assert_eq!(parse_json_report(&with_vulns).unwrap()[0].id, "A");
    let findings = obj(vec![
        ("vulnerabilities", s("not a list")),
        ("findings", JsonValue::Array(vec![obj(vec![("id", s("B"))]), obj(vec![])])),
    ]);
    let f = parse_json_report(&findings).unwrap();
    assert_eq!(f.len(), 2);
    assert_eq!(f[0].id, "B");
    let top = JsonValue::Array(vec![obj(vec![("id", s("C"))])]);
    assert_eq!(parse_json_report(&top).unwrap()[0].id, "C");
    assert_eq!(parse_json_report(&obj(vec![("other", s("x"))])).unwrap().len(), 0);
    assert_eq!(parse_json_report(&s("x")).unwrap().len(), 0);
}

#[test]
fn findings_come_from_first_readable_json_then_markdown() {
    let a = JsonValue::Array(vec![obj(vec![("id", s("J1"))])]);
    let b = JsonValue::Array(vec![obj(vec![("id", s("J2"))])]);
    let v = report_vulnerabilities(&vec![None, Some(a), Some(b)], &vec![Some("## M\n".to_string())]).unwrap();
    assert_eq!(v.len(), 1);
    assert_eq!(v[0].id, "J1");
    let empty = JsonValue::Array(vec![]);
    let m = report_vulnerabilities(
        &vec![Some(empty), Some(JsonValue::Array(vec![obj(vec![])]))],
        &vec![None, Some("## From md\n".to_string()), Some("## other\n".to_string())],
    )
    .unwrap();
    assert_eq!(m.len(), 1);
    assert_eq!(m[0].title, "From md");
    assert_eq!(report_vulnerabilities(&vec![], &vec![]).unwrap().len(), 0);
}

#[test]
fn markdown_last_severity_line_wins() {
    let v = parse_markdown_report("### ## Title ##  \nseverity: low\nnote\nSeverity: HIGH\n").unwrap();
    assert_eq!(v.len(), 1);
    assert_eq!(v[0].title, "## Title ##");
    assert_eq!(v[0].severity, "high");
    assert_eq!(v[0].description, "note");
}

#[test]
fn report_texts_are_parsed_as_json() {
    let texts = vec![
        None,
        Some("{ not json".to_string()),
        Some(r#"{"vulnerabilities": [{"id": "X1", "title": "T", "severity": "CRITICAL", "poc": "p"}], "vulnerabilities": [{"id": "X2"}]}"#.to_string()),
        Some(r#"[{"id": "later"}]"#.to_string()),
    ];
    let v = report_vulnerabilities_from_texts(&texts, &vec![Some("## md\n".to_string())]).unwrap();
    assert_eq!(v.len(), 1);
    assert_eq!(v[0].id, "X2");
    let nums = vec![Some(r#"[{"id": 7, "vuln_id": "ignored", "title": "Num"}]"#.to_string())];
    let n = report_vulnerabilities_from_texts(&nums, &vec![]).unwrap();
    assert_eq!(n[0].id, "unknown");
    assert_eq!(n[0].title, "Num");
    let none = report_vulnerabilities_from_texts(&vec![Some("garbage".to_string())], &vec![Some("### From md\n".to_string())]).unwrap();
    assert_eq!(none[0].title, "From md");
}

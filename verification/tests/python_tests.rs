use feedscan::python::{
    embedded_paths_check, workspace_failure,
    embedded_command_line, embedded_outcome, embedded_report, embedded_script, output_log_lines,
    probe_python, probe_result, probe_script, python_args, python_check, python_escaped,
    python_path, python_raw_literal, remove_verbatim_prefix, run_failure_report, EMBEDDED_HEAD,
    EMBEDDED_TAIL, PROBE_HEAD,
};

fn strs(v: &[&str]) -> Vec<String> {
    v.iter().map(|s| s.to_string()).collect()
}

#[test]
fn verbatim_prefix_is_removed() {
    assert_eq!(remove_verbatim_prefix(r"\\?\C:\x"), r"C:\x");
    assert_eq!(remove_verbatim_prefix(r"C:\x"), r"C:\x");
    assert_eq!(remove_verbatim_prefix(r"\\?"), r"\\?");
    assert_eq!(python_path(r"\\?\C:\a\b"), "C:/a/b");
}

#[test]
fn python_literals() {
    assert_eq!(python_escaped(r"a\b'c"), r"a\\b\'c");
    assert_eq!(python_raw_literal("x'y"), r"r'x\'y'");
    assert_eq!(python_args(&strs(&["--target", "a b"])), "r'--target', r'a b'");
    assert_eq!(python_args(&vec![]), "");
}

#[test]
fn embedded_program_text() {
    let code = embedded_script(r"\\?\C:\w", "/s/main.py", "/s", &strs(&["--target", "x"]));
    assert!(code.starts_with(EMBEDDED_HEAD));
    assert!(code.ends_with(EMBEDDED_TAIL));
    assert!(code.contains("workspace_raw = r\"C:/w\""));
    assert!(code.contains("strix_main_raw = r\"/s/main.py\""));
    assert!(code.contains("strix_root_raw = r\"/s\""));
    assert!(code.contains("cmd_args = [r'--target', r'x']"));
    assert!(code.contains("print(f\"[DEBUG] 工作目录（原始）: {workspace_raw}\")"));
}

#[test]
fn command_line_and_failure_report() {
    assert_eq!(
        embedded_command_line(r"\\?\C:\s\main.py", &strs(&["--target", "x"])),
        r"python C:\s\main.py --target x"
    );
    assert_eq!(
        run_failure_report("boom", "/s/main.py", "/s", "/w", &strs(&["a", "b"])),
        "Python 执行错误: boom\n\n完整执行命令:\n  python /s/main.py a b\n\n路径信息:\n  - Strix 路径: /s/main.py\n  - Strix 目录: /s\n  - 工作目录: /w\n\n命令行参数:\n  a b"
    );
}

#[test]
fn run_outcomes() {
    assert_eq!(embedded_outcome("o".into(), "e".into(), None), ("o".to_string(), "e".to_string(), 0));
    assert_eq!(
        embedded_outcome("o".into(), "  ".into(), Some("x".into())),
        ("o".to_string(), "Python 执行错误: x".to_string(), 1)
    );
    assert_eq!(
        embedded_outcome("o".into(), "trace".into(), Some("x".into())),
        ("o".to_string(), "trace\nPython 错误: x".to_string(), 1)
    );
}

#[test]
fn log_lines_are_trimmed_and_non_blank() {
    assert_eq!(output_log_lines(" a \n\n b\r\n"), strs(&["a", "b"]));
    assert_eq!(output_log_lines(""), Vec::<String>::new());
}

#[test]
fn report_of_failed_run_keeps_last_five_lines() {
    let r = embedded_report(&Ok(("x\ny".to_string(), "l1\nl2\nl3\nl4\nl5\nl6\n".to_string(), 1)));
    assert_eq!(r.info_lines, strs(&["x", "y"]));
    assert_eq!(r.error_lines.len(), 6);
    assert_eq!(r.status, "failed");
    assert_eq!(r.message, "扫描失败: l2\nl3\nl4\nl5\nl6");
    assert!(r.read_results);
}

#[test]
fn report_of_other_runs() {
    let ok = embedded_report(&Ok((String::new(), String::new(), 0)));
    assert_eq!((ok.status.as_str(), ok.message.as_str()), ("completed", "扫描完成"));
    let quiet = embedded_report(&Ok((String::new(), String::new(), 2)));
    assert_eq!(quiet.message, "扫描失败");
    let short = embedded_report(&Ok((String::new(), "only\n".to_string(), 1)));
    assert_eq!(short.message, "扫描失败: only");
    let err = embedded_report(&Err("oops".to_string()));
    assert_eq!(err.error_lines, strs(&["Python 执行错误: oops"]));
    assert_eq!(err.status, "failed");
    assert_eq!(err.message, "Python 执行错误: oops");
    assert!(err.info_lines.is_empty());
    assert!(!err.read_results);
}

#[test]
fn probe_program_text() {
    let with_base = probe_script("/r", "/r/strix", "openai/gpt", "sk'1", &Some("h'".to_string()));
    assert!(with_base.starts_with(PROBE_HEAD));
    assert!(with_base.contains("strix_root = r\"/r\""));
    assert!(with_base.contains("os.environ[\"STRIX_LLM\"] = r\"openai/gpt\""));
    assert!(with_base.contains("os.environ[\"LLM_API_KEY\"] = r\"sk\\'1\""));
    assert!(with_base.contains("if True:"));
    assert!(with_base.contains("os.environ[\"LLM_API_BASE\"] = r'h\\''"));
    let without = probe_script("/r", "/r/strix", "m", "k", &None);
    assert!(without.contains("if False:"));
    assert!(without.contains("os.environ[\"LLM_API_BASE\"] = None"));
}

#[test]
fn probe_interpreter_and_answer() {
    assert_eq!(probe_python(true, false), Ok("python".to_string()));
    assert_eq!(probe_python(false, true), Ok("python3".to_string()));
    assert!(probe_python(false, false).unwrap_err().starts_with("未找到系统 Python"));
    assert_eq!(probe_result(true, b"  OK \n", b""), Ok("OK".to_string()));
    assert_eq!(probe_result(true, b" ", b"x"), Ok("✅ LLM 连接测试成功，但未收到输出".to_string()));
    assert_eq!(probe_result(false, b"out", b" err "), Err("err\nout".to_string()));
    assert_eq!(probe_result(false, b"out", b""), Err("LLM 连接测试失败: out".to_string()));
    assert_eq!(probe_result(false, b"\xff", b""), Err("LLM 连接测试失败: \u{FFFD}".to_string()));
}

#[test]
fn system_interpreter_check() {
    assert_eq!(python_check(Some(false), Err("unused".into())), Ok(false));
    assert_eq!(python_check(None, Ok(true)), Ok(true));
    assert_eq!(python_check(None, Err("e".into())), Err("系统 Python 未安装或不在 PATH 中: e".to_string()));
}

#[test]
fn embedded_run_preconditions() {
    assert_eq!(
        embedded_paths_check(false, "/s/main.py", false, "/s"),
        Err("Strix 主程序不存在: /s/main.py".to_string())
    );
    assert_eq!(embedded_paths_check(true, "/s/main.py", false, "/s"), Err("Strix 目录不存在: /s".to_string()));
    assert_eq!(embedded_paths_check(true, "/s/main.py", true, "/s"), Ok(()));
    assert_eq!(workspace_failure(true, "/w", "denied"), "创建工作目录失败 (路径: /w): denied");
    assert_eq!(workspace_failure(false, "/w", "gone"), "无法访问工作目录 (路径: /w): gone");
}

use feedscan::docker::{
    choose_scan_place, label_search_needed, listing_needed, ScanPlace,
    container_from_ps, docker_check, docker_exec_args, docker_run_args, listing_has_image,
    pick_strix_image, shell_quoted, strix_cli_args, strix_image_candidates, strix_shell_command,
    token_from_indices, tool_server_token, ContainerSetup, TOKEN_LENGTH,
};
use feedscan::scan::ScanConfig;

fn deepseek_config() -> ScanConfig {
    ScanConfig {
        targets: vec!["https://a.com".to_string(), "it's".to_string()],
        instruction: Some("go".to_string()),
        run_name: None,
        llm_provider: "deepseek/deepseek-chat".to_string(),
        llm_api_key: "k1".to_string(),
        llm_api_base: Some("https://api.ds".to_string()),
        non_interactive: true,
    }
}

fn strs(v: &[&str]) -> Vec<String> {
    v.iter().map(|s| s.to_string()).collect()
}

#[test]
fn scanner_arguments() {
    assert_eq!(
        strix_cli_args(&deepseek_config()),
        strs(&["--target", "https://a.com", "it's", "--instruction", "go", "--non-interactive"])
    );
    let mut c = deepseek_config();
    c.targets = vec![];
    c.instruction = None;
    c.run_name = Some("r".to_string());
    c.non_interactive = false;
    assert_eq!(strix_cli_args(&c), strs(&["--target", "--run-name", "r"]));
}

#[test]
fn quoting_for_the_shell() {
    assert_eq!(shell_quoted("it's"), "'it'\"'\"'s'");
    assert_eq!(shell_quoted(""), "''");
    assert_eq!(shell_quoted("a b"), "'a b'");
}

/// Reads a word made of single- and double-quoted parts, as a POSIX shell
/// does.
fn read_word(w: &str) -> Option<String> {
    let mut out = String::new();
    let mut mode = 0;
    for c in w.chars() {
        match (mode, c) {
            (0, '\'') => mode = 1,
            (0, '"') => mode = 2,
            (0, _) => return None,
            (1, '\'') => mode = 0,
            (1, _) => out.push(c),
            (2, '"') => mode = 0,
            (2, '$') | (2, '`') | (2, '\\') => return None,
            (_, _) => out.push(c),
        }
    }
    if mode == 0 {
        Some(out)
    } else {
        None
    }
}

#[test]
fn quoted_strings_read_back() {
    for s in ["", "plain", "it's", "''", "$(rm -rf /)", "a\"b'c\\d", "`x` ; echo"] {
        assert_eq!(read_word(&shell_quoted(s)).as_deref(), Some(s));
    }
}

#[test]
fn shell_command_in_running_container() {
    assert_eq!(
        strix_shell_command(&deepseek_config()),
        "cd /workspace && { source /etc/profile.d/proxy.sh 2>/dev/null || true; } && poetry run strix --target 'https://a.com' --target 'it'\"'\"'s' --instruction 'go' --non-interactive"
    );
}

#[test]
fn exec_arguments_for_running_container() {
    let c = deepseek_config();
    let cmd = strix_shell_command(&c);
    let mut expected = strs(&[
        "exec",
        "-i",
        "-w",
        "/workspace",
        "-e",
        "STRIX_LLM=deepseek/deepseek-chat",
        "-e",
        "LLM_API_KEY=k1",
        "-e",
        "PYTHONPATH=/app",
        "-e",
        "LLM_API_BASE=https://api.ds",
        "-e",
        "DEEPSEEK_API_KEY=k1",
        "-e",
        "DEEPSEEK_API_BASE=https://api.ds",
        "strix-scan-1",
        "bash",
        "-c",
    ]);
    expected.push(cmd);
    expected.extend(strs(&["https://a.com", "it's", "--instruction", "go", "--non-interactive"]));
    assert_eq!(docker_exec_args(&c, "strix-scan-1"), expected);
}

#[test]
fn run_arguments_for_new_container() {
    let c = ScanConfig {
        targets: vec!["t".to_string()],
        instruction: None,
        run_name: None,
        llm_provider: "openai/gpt-4o".to_string(),
        llm_api_key: "k".to_string(),
        llm_api_base: Some(String::new()),
        non_interactive: false,
    };
    let setup = ContainerSetup {
        workspace: "C:\\Users\\me\\ws".to_string(),
        caido_port: 40123,
        tool_server_port: 7,
        tool_server_token: "T".to_string(),
        image: "strix:0.4.0".to_string(),
    };
    assert_eq!(
        docker_run_args(&c, &setup),
        strs(&[
            "run",
            "--rm",
            "-i",
            "-v",
            "C:/Users/me/ws:/workspace",
            "-e",
            "PYTHONUNBUFFERED=1",
            "-e",
            "CAIDO_PORT=40123",
            "-e",
            "TOOL_SERVER_PORT=7",
            "-e",
            "TOOL_SERVER_TOKEN=T",
            "-e",
            "STRIX_LLM=openai/gpt-4o",
            "-e",
            "LLM_API_KEY=k",
            "-e",
            "PYTHONPATH=/app",
            "-e",
            "OPENAI_API_KEY=k",
            "--cap-add=NET_ADMIN",
            "--cap-add=NET_RAW",
            "strix:0.4.0",
            "strix",
            "--target",
            "t",
        ])
    );
}

#[test]
fn other_providers_get_no_extra_key() {
    let mut c = deepseek_config();
    c.llm_provider = "ollama/llama3".to_string();
    c.llm_api_base = None;
    let args = docker_exec_args(&c, "x");
    assert!(!args.iter().any(|a| a.contains("_API_KEY=") && !a.starts_with("LLM_API_KEY=")));
    assert!(!args.iter().any(|a| a.starts_with("LLM_API_BASE=")));
    let mut a = deepseek_config();
    a.llm_provider = "anthropic/model-3".to_string();
    assert!(docker_exec_args(&a, "x").contains(&"ANTHROPIC_API_KEY=k1".to_string()));
}

#[test]
fn running_container_is_first_line() {
    assert_eq!(container_from_ps(b"strix-scan-9\nother\n".to_vec()).as_deref(), Some("strix-scan-9"));
    assert_eq!(container_from_ps(b" name \r\n".to_vec()).as_deref(), Some("name"));
    assert_eq!(container_from_ps(b"  \nx".to_vec()), None);
    assert_eq!(container_from_ps(Vec::new()), None);
    assert_eq!(container_from_ps(vec![0xff, b'a']), None);
}

#[test]
fn image_listing() {
    let listing = b"strix:latest\n  strix:0.4.0 \n".to_vec();
    assert!(listing_has_image(listing.clone(), "strix:0.4.0"));
    assert!(!listing_has_image(listing, "strix"));
    assert!(!listing_has_image(vec![0xc3], "strix:0.4.0"));
}

#[test]
fn first_listed_candidate_is_used() {
    assert_eq!(strix_image_candidates().len(), 6);
    let listings = vec![
        Some(b"ubuntu:latest\n".to_vec()),
        None,
        Some(b"usestrix/strix:0.4.0\nstrix:latest\n".to_vec()),
        Some(b"strix:latest\n".to_vec()),
    ];
    assert_eq!(pick_strix_image(&listings), Ok("usestrix/strix:0.4.0".to_string()));
    assert_eq!(
        pick_strix_image(&vec![]),
        Err("未找到 Strix Docker 镜像。请运行: cd strix-0.4.0 && docker build -f containers/Dockerfile -t strix:0.4.0 .".to_string())
    );
}

#[test]
fn tokens() {
    assert_eq!(token_from_indices(&vec![0, 25, 26, 61]), "AZa9");
    let t = tool_server_token();
    assert_eq!(t.chars().count(), TOKEN_LENGTH);
    assert!(t.chars().all(|c| c.is_ascii_alphanumeric()));
}

#[test]
fn docker_availability() {
    assert_eq!(docker_check(Err("nope".to_string())), Err("Docker 未安装或不在 PATH 中: nope".to_string()));
    assert_eq!(docker_check(Ok(false)), Err("Docker 命令执行失败".to_string()));
    assert_eq!(docker_check(Ok(true)), Ok(true));
}

#[test]
fn scanner_gets_the_same_arguments_in_either_container() {
    let c = deepseek_config();
    let cli = strix_cli_args(&c);
    let setup = ContainerSetup {
        workspace: "/w".to_string(),
        caido_port: 1,
        tool_server_port: 2,
        tool_server_token: "t".to_string(),
        image: "strix:latest".to_string(),
    };
    let run = docker_run_args(&c, &setup);
    assert_eq!(&run[run.len() - cli.len()..], &cli[..]);
    let exec = docker_exec_args(&c, "box");
    assert_eq!(&exec[exec.len() - (cli.len() - 1)..], &cli[1..]);
}

#[test]
fn scan_place_prefers_running_containers() {
    let listings = vec![Some(b"strix:0.4.0\n".to_vec())];
    assert_eq!(
        choose_scan_place(Some(b"strix-scan-1\n".to_vec()), Some(b"other\n".to_vec()), &listings),
        Ok(ScanPlace::Running("strix-scan-1".to_string()))
    );
    assert_eq!(
        choose_scan_place(Some(b"\n".to_vec()), Some(b"labelled\n".to_vec()), &listings),
        Ok(ScanPlace::Running("labelled".to_string()))
    );
    assert_eq!(
        choose_scan_place(None, None, &listings),
        Ok(ScanPlace::NewContainer("strix:0.4.0".to_string()))
    );
    assert!(choose_scan_place(None, Some(Vec::new()), &vec![]).is_err());
}

#[test]
fn searches_stop_when_something_is_found() {
    assert!(label_search_needed(&None));
    assert!(label_search_needed(&Some(b"  \n".to_vec())));
    assert!(!label_search_needed(&Some(b"c\n".to_vec())));
    assert!(listing_needed(&vec![]));
    assert!(listing_needed(&vec![Some(b"ubuntu\n".to_vec()), None]));
    assert!(!listing_needed(&vec![None, Some(b"strix-agent:0.4.0\n".to_vec())]));
    assert!(!listing_needed(&vec![None, None, None, None, None, None]));
}

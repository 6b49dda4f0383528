use feedscan::paths::{
    bundled_python_paths, child, db_path, ends_with_name, executable_dir, find_bundled_python,
    find_strix_main, first_existing, locate_server, parent_of, python_executable, server_index_paths,
    server_missing, strix_main_paths, strix_root, workspace_dir, FsPath,
};

fn p(anchor: &str, names: &[&str]) -> FsPath {
    FsPath { anchor: anchor.to_string(), names: names.iter().map(|s| s.to_string()).collect() }
}

fn with(base: &[&str], more: &[&str]) -> FsPath {
    let mut v: Vec<&str> = base.to_vec();
    v.extend_from_slice(more);
    p("/", &v)
}

const SCRIPT: [&str; 4] = ["strix-0.4.0", "strix", "interface", "main.py"];

#[test]
fn path_steps() {
    let a = p("/", &["a", "src-tauri"]);
    assert!(ends_with_name(&a, "src-tauri"));
    assert!(!ends_with_name(&p("/", &[]), "src-tauri"));
    assert_eq!(parent_of(&a), Some(p("/", &["a"])));
    assert_eq!(parent_of(&p("/", &[])), None);
    assert_eq!(child(&a, "x"), p("/", &["a", "src-tauri", "x"]));
}

#[test]
fn scanner_script_candidates_from_src_tauri() {
    let res = p("/", &["res"]);
    let cwd = p("/", &["home", "u", "proj", "src-tauri"]);
    let c = strix_main_paths(&Some(res), &Some(cwd));
    assert_eq!(c.len(), 14);
    assert_eq!(c[0], with(&["res"], &SCRIPT));
    assert_eq!(c[1], with(&["home", "u", "proj", "src-tauri"], &SCRIPT));
    assert_eq!(c[2], with(&["home", "u", "proj", "src-tauri"], &SCRIPT));
    assert_eq!(c[3], with(&["home", "u", "proj"], &SCRIPT));
    assert_eq!(c[4], with(&["home", "u", "proj", "src-tauri"], &SCRIPT));
    assert_eq!(c[5], with(&["home", "u", "proj", "src-tauri", "src-tauri"], &SCRIPT));
    assert_eq!(c[6], with(&["home", "u", "proj"], &SCRIPT));
    assert_eq!(c[13], with(&["src-tauri"], &SCRIPT));
    for x in &c {
        assert_eq!(x.names.last().map(|s| s.as_str()), Some("main.py"));
    }
}

#[test]
fn scanner_script_candidates_elsewhere() {
    let c = strix_main_paths(&None, &Some(p("C:\\", &["work"])));
    assert_eq!(c.len(), 1 + 4);
    assert_eq!(c[0].anchor, "C:\\");
    assert_eq!(strix_main_paths(&None, &None).len(), 0);
}

#[test]
fn first_existing_candidate_is_taken() {
    let c = vec![p("/", &["a"]), p("/", &["b"]), p("/", &["c"])];
    assert_eq!(first_existing(3, &vec![false, true, true]), Some(1));
    assert_eq!(first_existing(3, &vec![false]), None);
    assert_eq!(find_strix_main(&c, &vec![false, false, true]), Ok(p("/", &["c"])));
    assert_eq!(
        find_strix_main(&c, &vec![]),
        Err("Strix 主程序未找到，请确保 strix-0.4.0 目录存在于 src-tauri 或项目根目录".to_string())
    );
    assert_eq!(find_bundled_python(&c, &vec![true]), Some(p("/", &["a"])));
    assert_eq!(find_bundled_python(&c, &vec![false, false, false]), None);
}

#[test]
fn bundled_interpreter_candidates() {
    let c = bundled_python_paths(&None, &Some(p("/", &["a", "src-tauri"])), true);
    assert_eq!(c.len(), 5);
    assert_eq!(c[0], p("/", &["a", "src-tauri", "python-runtime", "python", "python.exe"]));
    assert_eq!(c[1], p("/", &["a", "python-runtime", "python", "python.exe"]));
    assert_eq!(c[4], p("/", &["python-runtime", "python", "python.exe"]));
    let u = bundled_python_paths(&Some(p("/", &["r"])), &None, false);
    assert_eq!(u, vec![p("/", &["r", "python-runtime", "python", "python3"])]);
}

#[test]
fn interpreter_choice() {
    assert_eq!(python_executable(Some("/x/python3".to_string()), false, false), Ok("/x/python3".to_string()));
    assert_eq!(python_executable(None, true, true), Ok("python".to_string()));
    assert_eq!(python_executable(None, false, true), Ok("python3".to_string()));
    assert!(python_executable(None, false, false).unwrap_err().starts_with("未找到 Python 解释器"));
}

#[test]
fn server_candidates_and_location() {
    let exe_dir = p("/", &["opt", "app", "bin"]);
    let c = server_index_paths(&exe_dir, &Some(p("/", &["opt", "app", "res"])));
    assert_eq!(
        c,
        vec![
            p("/", &["opt", "app", "bin", ".output", "server", "index.mjs"]),
            p("/", &["opt", "app", ".output", "server", "index.mjs"]),
            p("/", &["opt", "app", "res", ".output", "server", "index.mjs"]),
            p("/", &["opt", "app", "res", "server", "index.mjs"]),
            p("/", &["opt", ".output", "server", "index.mjs"]),
        ]
    );
    assert_eq!(
        locate_server(&c, &vec![false, true]),
        Some((p("/", &["opt", "app", ".output", "server"]), c[1].clone()))
    );
    assert_eq!(locate_server(&c, &vec![]), None);
    assert_eq!(server_index_paths(&p("/", &[]), &None).len(), 1);
}

#[test]
fn executable_directory() {
    assert_eq!(executable_dir(Ok(p("/", &["opt", "feed"]))), Ok(p("/", &["opt"])));
    assert_eq!(executable_dir(Ok(p("/", &[]))), Err("Failed to get executable directory".to_string()));
    assert_eq!(executable_dir(Err("e".to_string())), Err("Failed to get executable path: e".to_string()));
}

#[test]
fn missing_server_lists_tried_paths() {
    assert_eq!(
        server_missing(&vec!["\"/a\"".to_string(), "\"/b\"".to_string()]),
        "Server file index.mjs not found. Tried paths:\n  - \"/a\"\n  - \"/b\""
    );
    assert_eq!(server_missing(&vec![]), "Server file index.mjs not found. Tried paths:\n");
}

#[test]
fn workspace_and_database() {
    assert_eq!(workspace_dir(Ok(p("/", &["data"]))), Ok(p("/", &["data", "workspace"])));
    assert_eq!(workspace_dir(Err("x".to_string())), Err("无法获取应用数据目录: x".to_string()));
    assert_eq!(db_path(&p("/", &["data"])), p("/", &["data", "rss-reader.db"]));
}

#[test]
fn scanner_root_is_two_levels_up() {
    let script = with(&["x"], &SCRIPT);
    assert_eq!(strix_root(&script), Ok(p("/", &["x", "strix-0.4.0", "strix"])));
    assert_eq!(strix_root(&p("", &["main.py"])), Err("无法获取 Strix 根目录".to_string()));
    assert_eq!(strix_root(&p("/", &[])), Err("无法获取 Strix 目录".to_string()));
}

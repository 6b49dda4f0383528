//! The embedded-interpreter way of running a scan and of probing the model
//! service: the Python program text handed to the interpreter, the literals
//! it is built from, and what is made of the interpreter's output.

use vstd::prelude::*;
use crate::text::{
    chars_of, has_prefix, join, join_strings, lines, lines_chars, replace_char, replace_char_str,
    skip_chars, split_char, split_chars, starts_with_chars, string_of, string_views, trim,
    trim_chars, utf8_lossy, lossy_utf8, views_of,
};

verus! {

// ---------------------------------------------------------------------------
// Paths and literals in Python source
// ---------------------------------------------------------------------------

/// A path text without the Windows verbatim prefix `\\?\`.
pub open spec fn without_verbatim(s: Seq<char>) -> Seq<char> {
    if has_prefix(s, "\\\\?\\"@) {
        s.skip(4)
    } else {
        s
    }
}

/// Removes the Windows verbatim prefix from a path text.
pub fn remove_verbatim_prefix(path: &str) -> (res: String)
    ensures
        res@ == without_verbatim(path@),
{
    let cs = chars_of(path);
    let prefix = chars_of("\\\\?\\");
    proof {
        reveal_strlit("\\\\?\\");
    }
    if starts_with_chars(cs.as_slice(), prefix.as_slice()) {
        let rest = skip_chars(cs.as_slice(), 4);
        string_of(rest.as_slice())
    } else {
        string_of(cs.as_slice())
    }
}

/// A path as the generated Python source writes it: without the verbatim
/// prefix, with forward slashes.
pub open spec fn python_path_text(s: Seq<char>) -> Seq<char> {
    replace_char(without_verbatim(s), '\\', "/"@)
}

/// A path as the generated Python source writes it.
pub fn python_path(path: &str) -> (res: String)
    ensures
        res@ == python_path_text(path@),
{
    let p = remove_verbatim_prefix(path);
    replace_char_str(p.as_str(), '\\', "/")
}

/// A string escaped for a Python raw literal: each backslash doubled, each
/// single quote preceded by a backslash.
pub open spec fn python_escape(s: Seq<char>) -> Seq<char> {
    replace_char(replace_char(s, '\\', "\\\\"@), '\'', "\\'"@)
}

/// Escapes a string for a Python raw literal.
pub fn python_escaped(s: &str) -> (res: String)
    ensures
        res@ == python_escape(s@),
{
    let a = replace_char_str(s, '\\', "\\\\");
    replace_char_str(a.as_str(), '\'', "\\'")
}

/// A string as a Python raw literal in single quotes.
pub open spec fn raw_literal(s: Seq<char>) -> Seq<char> {
    "r'"@ + python_escape(s) + "'"@
}

/// Writes a string as a Python raw literal.
pub fn python_raw_literal(s: &str) -> (res: String)
    ensures
        res@ == raw_literal(s@),
{
    let mut res = String::from_str("r'");
    let e = python_escaped(s);
    res.append(e.as_str());
    res.append("'");
    res
}

/// The arguments as the items of a Python list: raw literals separated by
/// `, `.
pub open spec fn python_arg_list(args: Seq<Seq<char>>) -> Seq<char> {
    join(args.map_values(|a: Seq<char>| raw_literal(a)), ", "@)
}

/// Writes the arguments as the items of a Python list.
pub fn python_args(args: &Vec<String>) -> (res: String)
    ensures
        res@ == python_arg_list(string_views(args@)),
{
    let mut items: Vec<String> = Vec::new();
    let mut i: usize = 0;
    while i < args.len()
        invariant
            i <= args@.len(),
            string_views(items@) == string_views(args@).take(i as int).map_values(
                |a: Seq<char>| raw_literal(a),
            ),
        decreases args@.len() - i,
    {
        let item = python_raw_literal(args[i].as_str());
        let ghost old = items@;
        items.push(item);
        proof {
            assert(string_views(items@) =~= string_views(old).push(item@));
            assert(string_views(args@).take(i + 1) =~= string_views(args@).take(i as int).push(
                args@[i as int]@,
            ));
            assert(string_views(items@) =~= string_views(args@).take(i + 1).map_values(
                |a: Seq<char>| raw_literal(a),
            ));
        }
        i = i + 1;
    }
    proof {
        assert(string_views(args@).take(args@.len() as int) =~= string_views(args@));
    }
    join_strings(&items, ", ")
}

// ---------------------------------------------------------------------------
// The program that runs the scanner in the embedded interpreter
// ---------------------------------------------------------------------------

// The literal parts of the two programs, between the values put into them.

pub const EMBEDDED_HEAD: &'static str = r#"
import sys
import os
import asyncio
import traceback

try:
    print("[DEBUG] ========== Strix 执行开始 ==========")
    
    # 规范化路径（Windows 需要反斜杠）
    workspace_raw = r""#;

pub const EMBEDDED_AFTER_WORKSPACE: &'static str = r#""
    workspace = os.path.normpath(workspace_raw)
    print(f"[DEBUG] 工作目录（原始）: {workspace_raw}")
    print(f"[DEBUG] 工作目录（规范化）: {workspace}")
    
    # 设置工作目录（确保目录存在）
    if not os.path.exists(workspace):
        os.makedirs(workspace, exist_ok=True)
    if not os.path.isdir(workspace):
        raise OSError(f"工作目录不是有效的目录: {workspace}")
    
    # 使用绝对路径并规范化
    workspace_abs = os.path.abspath(workspace)
    print(f"[DEBUG] 工作目录（绝对路径）: {workspace_abs}")
    
    try:
        os.chdir(workspace_abs)
        print(f"[DEBUG] 成功切换到工作目录: {os.getcwd()}")
    except OSError as e:
        raise OSError(f"无法切换到工作目录 {workspace_abs}: {e}")

    # 直接执行文件路径
    strix_main_raw = r""#;

pub const EMBEDDED_AFTER_SCRIPT: &'static str = r#""
    strix_main = os.path.normpath(strix_main_raw)
    strix_main_abs = os.path.abspath(strix_main)
    print(f"[DEBUG] Strix 主程序（原始）: {strix_main_raw}")
    print(f"[DEBUG] Strix 主程序（规范化）: {strix_main}")
    print(f"[DEBUG] Strix 主程序（绝对路径）: {strix_main_abs}")
    
    if not os.path.exists(strix_main_abs):
        raise FileNotFoundError(f"Strix 主程序未找到: {strix_main_abs}")
    if not os.path.isfile(strix_main_abs):
        raise OSError(f"Strix 主程序路径不是文件: {strix_main_abs}")

    # 将 Strix 目录添加到路径（确保可以导入 strix 模块）
    strix_root_raw = r""#;

pub const EMBEDDED_AFTER_ROOT: &'static str = r#""
    strix_root = os.path.normpath(strix_root_raw)
    strix_package = os.path.join(strix_root, "strix")
    
    # 使用绝对路径
    strix_root_abs = os.path.abspath(strix_root)
    strix_package_abs = os.path.abspath(strix_package) if os.path.exists(strix_package) else None
    
    print(f"[DEBUG] Strix 根目录: {strix_root_abs}")
    if strix_package_abs:
        print(f"[DEBUG] Strix 包目录: {strix_package_abs}")
    
    if strix_package_abs and os.path.exists(strix_package_abs) and strix_package_abs not in sys.path:
        sys.path.insert(0, strix_package_abs)
        print(f"[DEBUG] 已添加 Strix 包路径到 sys.path: {strix_package_abs}")
    if strix_root_abs not in sys.path:
        sys.path.insert(0, strix_root_abs)
        print(f"[DEBUG] 已添加 Strix 根路径到 sys.path: {strix_root_abs}")

    # 设置命令行参数
    # sys.argv[0] 应该是脚本文件名，后续是真正的命令行参数
    script_name = os.path.basename(strix_main_abs)
    cmd_args = ["#;

pub const EMBEDDED_TAIL: &'static str = r#"]
    sys.argv = [script_name] + cmd_args
    print(f"[DEBUG] 脚本名称: {script_name}")
    print(f"[DEBUG] 完整命令行参数: {sys.argv}")
    cmd_str = ' '.join(cmd_args)
    print(f"[DEBUG] 等效命令: python {strix_main_abs} {cmd_str}")
    
    print(f"[DEBUG] 开始执行 Strix 主程序...")
    
    # 直接执行文件（这样会触发 if __name__ == "__main__" 的逻辑）
    with open(strix_main_abs, 'r', encoding='utf-8') as f:
        file_content = f.read()
        print(f"[DEBUG] 已读取文件内容，长度: {len(file_content)} 字符")
        code_obj = compile(file_content, strix_main_abs, 'exec')
        print(f"[DEBUG] 已编译代码对象")
        exec(code_obj, {'__name__': '__main__', '__file__': strix_main_abs})
        print(f"[DEBUG] 代码执行完成")
        
except Exception as e:
    error_type = type(e).__name__
    error_msg = str(e)
    error_trace = traceback.format_exc()
    print(f"[ERROR] {error_type}: {error_msg}", file=sys.stderr)
    print(error_trace, file=sys.stderr)
    raise
"#;

pub const PROBE_HEAD: &'static str = r#"
import sys
import os
import traceback

# 添加 Strix 路径
strix_root = r""#;

pub const PROBE_AFTER_ROOT: &'static str = r#""
strix_package = r""#;

pub const PROBE_AFTER_PACKAGE: &'static str = r#""
if strix_package not in sys.path:
    sys.path.insert(0, strix_package)
if strix_root not in sys.path:
    sys.path.insert(0, strix_root)

try:
    import litellm
    from strix.interface.utils import validate_llm_response
    
    # 设置环境变量
    os.environ["STRIX_LLM"] = r""#;

pub const PROBE_AFTER_MODEL: &'static str = r#""
    os.environ["LLM_API_KEY"] = r""#;

pub const PROBE_AFTER_KEY: &'static str = r#""
    if "#;

pub const PROBE_AFTER_FLAG: &'static str = r#":
        os.environ["LLM_API_BASE"] = "#;

pub const PROBE_TAIL: &'static str = r#"
    
    # 获取配置
    model_name = os.getenv("STRIX_LLM", "openai/gpt-5")
    api_key = os.getenv("LLM_API_KEY")
    api_base = (
        os.getenv("LLM_API_BASE")
        or os.getenv("OPENAI_API_BASE")
        or os.getenv("LITELLM_BASE_URL")
        or os.getenv("OLLAMA_API_BASE")
    )
    
    if not api_key:
        raise ValueError("LLM_API_KEY 未设置")
    
    # 配置 litellm
    litellm.api_key = api_key
    if api_base:
        litellm.api_base = api_base
    
    # 测试消息
    test_messages = [
        {"role": "system", "content": "You are a helpful assistant."},
        {"role": "user", "content": "Reply with just 'OK'."},
    ]
    
    llm_timeout = int(os.getenv("LLM_TIMEOUT", "60"))
    
    print(f"[TEST] 正在测试 LLM 连接...")
    print(f"[TEST] 模型: {model_name}")
    print(f"[TEST] API Base: {api_base if api_base else '默认'}")
    
    # 执行测试请求
    response = litellm.completion(
        model=model_name,
        messages=test_messages,
        timeout=llm_timeout,
    )
    
    # 验证响应
    validate_llm_response(response)
    
    # 获取响应内容
    response_content = response.choices[0].message.content
    print(f"[TEST] ✅ LLM 连接成功！")
    print(f"[TEST] 响应: {response_content}")
    
    result_msg = f"✅ LLM 连接成功！\\n\\n模型: {model_name}\\nAPI Base: {api_base if api_base else '默认'}\\n响应: {response_content}"
    print(result_msg)
    
except ImportError as e:
    error_msg = f"导入模块失败: {e}\\n\\n请确保已安装 Strix 的依赖：\\n  cd strix-0.4.0\\n  poetry install\\n\\n或者使用 pip 安装：\\n  pip install litellm[proxy]"
    print(f"[TEST] ❌ {error_msg}", file=sys.stderr)
    sys.exit(1)
except Exception as e:
    error_type = type(e).__name__
    error_msg = str(e)
    error_trace = traceback.format_exc()
    print(f"[TEST] ❌ LLM 连接失败: {error_type}: {error_msg}", file=sys.stderr)
    print(error_trace, file=sys.stderr)
    sys.exit(1)
"#;

/// The program the embedded interpreter runs: it enters the workspace,
/// checks the entry script, puts the scanner's directories on the module
/// path, sets `sys.argv` to the script's name and the arguments, and
/// executes the script as `__main__`, reporting any exception on stderr.
pub open spec fn embedded_program(
    workspace: Seq<char>,
    script: Seq<char>,
    root: Seq<char>,
    args: Seq<Seq<char>>,
) -> Seq<char> {
    EMBEDDED_HEAD@ + python_path_text(workspace) + EMBEDDED_AFTER_WORKSPACE@ + python_path_text(
        script,
    ) + EMBEDDED_AFTER_SCRIPT@ + python_path_text(root) + EMBEDDED_AFTER_ROOT@ + python_arg_list(
        args,
    ) + EMBEDDED_TAIL@
}

/// The program the embedded interpreter runs, from the texts of the
/// workspace, the entry script and the scanner's root directory.
pub fn embedded_script(workspace: &str, script: &str, root: &str, args: &Vec<String>) -> (res:
    String)
    ensures
        res@ == embedded_program(workspace@, script@, root@, string_views(args@)),
{
    let mut res = String::from_str(EMBEDDED_HEAD);
    res.append(python_path(workspace).as_str());
    res.append(EMBEDDED_AFTER_WORKSPACE);
    res.append(python_path(script).as_str());
    res.append(EMBEDDED_AFTER_SCRIPT);
    res.append(python_path(root).as_str());
    res.append(EMBEDDED_AFTER_ROOT);
    res.append(python_args(args).as_str());
    res.append(EMBEDDED_TAIL);
    res
}

/// The equivalent command line, as error reports show it.
pub open spec fn command_line(script: Seq<char>, args: Seq<Seq<char>>) -> Seq<char> {
    "python "@ + without_verbatim(script) + " "@ + join(args, " "@)
}

/// The equivalent command line of an embedded run.
pub fn embedded_command_line(script: &str, args: &Vec<String>) -> (res: String)
    ensures
        res@ == command_line(script@, string_views(args@)),
{
    let mut res = String::from_str("python ");
    res.append(remove_verbatim_prefix(script).as_str());
    res.append(" ");
    res.append(join_strings(args, " ").as_str());
    res
}

/// The report of an embedded run that failed before the program ran: the
/// error, the equivalent command line, the paths and the arguments.
pub open spec fn run_failure_text(
    error: Seq<char>,
    script: Seq<char>,
    dir: Seq<char>,
    workspace: Seq<char>,
    args: Seq<Seq<char>>,
) -> Seq<char> {
    "Python 执行错误: "@ + error + "\n\n完整执行命令:\n  "@ + command_line(script, args)
        + "\n\n路径信息:\n  - Strix 路径: "@ + without_verbatim(script) + "\n  - Strix 目录: "@
        + without_verbatim(dir) + "\n  - 工作目录: "@ + without_verbatim(workspace)
        + "\n\n命令行参数:\n  "@ + join(args, " "@)
}

/// The report of an embedded run that failed before the program ran.
pub fn run_failure_report(
    error: &str,
    script: &str,
    dir: &str,
    workspace: &str,
    args: &Vec<String>,
) -> (res: String)
    ensures
        res@ == run_failure_text(error@, script@, dir@, workspace@, string_views(args@)),
{
    let mut res = String::from_str("Python 执行错误: ");
    res.append(error);
    res.append("\n\n完整执行命令:\n  ");
    res.append(embedded_command_line(script, args).as_str());
    res.append("\n\n路径信息:\n  - Strix 路径: ");
    res.append(remove_verbatim_prefix(script).as_str());
    res.append("\n  - Strix 目录: ");
    res.append(remove_verbatim_prefix(dir).as_str());
    res.append("\n  - 工作目录: ");
    res.append(remove_verbatim_prefix(workspace).as_str());
    res.append("\n\n命令行参数:\n  ");
    res.append(join_strings(args, " ").as_str());
    res
}

/// What an embedded run hands back: the captured output, and an exit code
/// of 0 when the program ran to its end; when it raised, code 1 and the
/// error added to the captured stderr (or standing alone when that is
/// blank).
pub open spec fn captured_outcome(stdout: Seq<char>, stderr: Seq<char>, error: Option<Seq<char>>) -> (
    Seq<char>,
    Seq<char>,
    int,
) {
    match error {
        None => (stdout, stderr, 0),
        Some(e) => (stdout, if trim(stderr).len() == 0 {
            "Python 执行错误: "@ + e
        } else {
            stderr + "\nPython 错误: "@ + e
        }, 1),
    }
}

/// What an embedded run hands back, from its captured output and the
/// error the program raised, if any.
pub fn embedded_outcome(stdout: String, stderr: String, error: Option<String>) -> (res: (
    String,
    String,
    i32,
))
    ensures
        (res.0@, res.1@, res.2 as int) == captured_outcome(stdout@, stderr@, crate::scan::opt_view(error)),
{
    match error {
        None => (stdout, stderr, 0),
        Some(e) => {
            let blank = trim_chars(chars_of(stderr.as_str()).as_slice()).len() == 0;
            if blank {
                let mut m = String::from_str("Python 执行错误: ");
                m.append(e.as_str());
                (stdout, m, 1)
            } else {
                let mut m = stderr;
                m.append("\nPython 错误: ");
                m.append(e.as_str());
                (stdout, m, 1)
            }
        },
    }
}

// ---------------------------------------------------------------------------
// What becomes of an embedded run
// ---------------------------------------------------------------------------

/// The log lines of an output: its pieces between line feeds, trimmed, the
/// blank ones left out.
pub open spec fn log_lines_of(parts: Seq<Seq<char>>) -> Seq<Seq<char>>
    decreases parts.len(),
{
    if parts.len() == 0 {
        Seq::empty()
    } else {
        let rest = log_lines_of(parts.drop_last());
        if trim(parts.last()).len() > 0 {
            rest.push(trim(parts.last()))
        } else {
            rest
        }
    }
}

/// The log lines of an output.
pub fn output_log_lines(out: &str) -> (res: Vec<String>)
    ensures
        string_views(res@) == log_lines_of(split_char(out@, '\n')),
{
    let cs = chars_of(out);
    let parts = split_chars(cs.as_slice(), '\n');
    let ghost ps = split_char(out@, '\n');
    let mut res: Vec<String> = Vec::new();
    let mut i: usize = 0;
    while i < parts.len()
        invariant
            i <= parts@.len(),
            views_of(parts@) == ps,
            string_views(res@) == log_lines_of(ps.take(i as int)),
        decreases parts@.len() - i,
    {
        let t = trim_chars(parts[i].as_slice());
        proof {
            assert(ps.take(i + 1).drop_last() =~= ps.take(i as int));
            assert(ps.take(i + 1).last() == parts@[i as int]@);
        }
        if t.len() > 0 {
            let ghost old = res@;
            let line = string_of(t.as_slice());
            res.push(line);
            proof {
                assert(string_views(res@) =~= string_views(old).push(line@));
            }
        }
        i = i + 1;
    }
    proof {
        assert(ps.take(parts@.len() as int) =~= ps);
    }
    res
}

/// The last lines of a text, at most five, in order.
pub open spec fn last_lines(s: Seq<char>) -> Seq<Seq<char>> {
    let ls = lines(s);
    if ls.len() <= 5 {
        ls
    } else {
        ls.skip(ls.len() - 5)
    }
}

/// The status message of a run whose program did not succeed: the last
/// lines of its stderr, or a bare failure when stderr is empty.
pub open spec fn failure_message(stderr: Seq<char>) -> Seq<char> {
    if stderr.len() > 0 {
        "扫描失败: "@ + join(last_lines(stderr), "\n"@)
    } else {
        "扫描失败"@
    }
}

/// A failed run's message holds at most the last five lines of its error
/// output, and it holds them in order.
pub proof fn lemma_failure_message_tail(stderr: Seq<char>)
    ensures
        last_lines(stderr).len() <= 5,
        last_lines(stderr).len() == if lines(stderr).len() <= 5 {
            lines(stderr).len()
        } else {
            5
        },
        forall|i: int|
            0 <= i < last_lines(stderr).len() ==> #[trigger] last_lines(stderr)[i] == lines(
                stderr,
            )[lines(stderr).len() - last_lines(stderr).len() + i],
{
}

/// What is recorded of an embedded run: the lines logged as information
/// and as errors, the final status and message, and whether the results
/// are read afterwards.
#[derive(Debug, Clone, PartialEq)]
pub struct EmbeddedReport {
    pub info_lines: Vec<String>,
    pub error_lines: Vec<String>,
    pub status: String,
    pub message: String,
    pub read_results: bool,
}

/// What is recorded of an embedded run, by what the run handed back:
/// output and exit code, or an error before the program ran.
pub open spec fn report_holds(
    r: EmbeddedReport,
    result: Result<(Seq<char>, Seq<char>, int), Seq<char>>,
) -> bool {
    match result {
        Ok((out, err, code)) => {
            &&& string_views(r.info_lines@) == log_lines_of(split_char(out, '\n'))
            &&& string_views(r.error_lines@) == log_lines_of(split_char(err, '\n'))
            &&& r.status@ == (if code == 0 {
                "completed"@
            } else {
                "failed"@
            })
            &&& r.message@ == (if code == 0 {
                "扫描完成"@
            } else {
                failure_message(err)
            })
            &&& r.read_results
        },
        Err(e) => {
            &&& r.info_lines@.len() == 0
            &&& string_views(r.error_lines@) == seq!["Python 执行错误: "@ + e]
            &&& r.status@ == "failed"@
            &&& r.message@ == "Python 执行错误: "@ + e
            &&& !r.read_results
        },
    }
}

fn failure_text(stderr: &str) -> (res: String)
    ensures
        res@ == failure_message(stderr@),
{
    let cs = chars_of(stderr);
    if cs.len() == 0 {
        return String::from_str("扫描失败");
    }
    let ls = lines_chars(cs.as_slice());
    let ghost l = lines(stderr@);
    let start: usize = if ls.len() <= 5 {
        0
    } else {
        ls.len() - 5
    };
    let mut tail: Vec<Vec<char>> = Vec::new();
    let mut i: usize = start;
    while i < ls.len()
        invariant
            start <= i <= ls@.len(),
            views_of(ls@) == l,
            views_of(tail@) == l.subrange(start as int, i as int),
        decreases ls@.len() - i,
    {
        let ghost old = tail@;
        tail.push(ls[i].clone());
        proof {
            assert(views_of(tail@) =~= views_of(old).push(ls@[i as int]@));
            assert(l.subrange(start as int, i + 1) =~= l.subrange(start as int, i as int).push(
                l[i as int],
            ));
        }
        i = i + 1;
    }
    proof {
        assert(l.subrange(start as int, l.len() as int) =~= last_lines(stderr@));
    }
    let mut m = String::from_str("扫描失败: ");
    m.append(crate::text::join_chars(&tail, "\n").as_str());
    m
}

/// What is recorded of an embedded run.
pub fn embedded_report(result: &Result<(String, String, i32), String>) -> (res: EmbeddedReport)
    ensures
        report_holds(
            res,
            match result {
                Ok((o, e, c)) => Ok((o@, e@, *c as int)),
                Err(e) => Err(e@),
            },
        ),
{
    match result {
        Ok((out, err, code)) => {
            let ok = *code == 0;
            EmbeddedReport {
                info_lines: output_log_lines(out.as_str()),
                error_lines: output_log_lines(err.as_str()),
                status: if ok {
                    String::from_str("completed")
                } else {
                    String::from_str("failed")
                },
                message: if ok {
                    String::from_str("扫描完成")
                } else {
                    failure_text(err.as_str())
                },
                read_results: true,
            }
        },
        Err(e) => {
            let mut m = String::from_str("Python 执行错误: ");
            m.append(e.as_str());
            let mut errs: Vec<String> = Vec::new();
            errs.push(m.clone());
            proof {
                assert(string_views(errs@) =~= seq![m@]);
            }
            EmbeddedReport {
                info_lines: Vec::new(),
                error_lines: errs,
                status: String::from_str("failed"),
                message: m,
                read_results: false,
            }
        },
    }
}

// ---------------------------------------------------------------------------
// Probing the model service
// ---------------------------------------------------------------------------

/// The program that probes the model service: it puts the scanner on the
/// module path, sets the model, the key and (when given) the base address,
/// sends one short completion request and prints the answer, or reports the
/// failure on stderr and exits with 1.
pub open spec fn probe_program(
    root: Seq<char>,
    package: Seq<char>,
    provider: Seq<char>,
    key: Seq<char>,
    base: Option<Seq<char>>,
) -> Seq<char> {
    PROBE_HEAD@ + python_path_text(root) + PROBE_AFTER_ROOT@ + python_path_text(package)
        + PROBE_AFTER_PACKAGE@ + python_escape(provider) + PROBE_AFTER_MODEL@ + python_escape(key)
        + PROBE_AFTER_KEY@ + (if base is Some {
        "True"@
    } else {
        "False"@
    }) + PROBE_AFTER_FLAG@ + match base {
        Some(b) => raw_literal(b),
        None => "None"@,
    } + PROBE_TAIL@
}

/// The program that probes the model service, from the texts of the
/// scanner's root directory and of its package directory.
pub fn probe_script(
    root: &str,
    package: &str,
    provider: &str,
    key: &str,
    base: &Option<String>,
) -> (res: String)
    ensures
        res@ == probe_program(root@, package@, provider@, key@, crate::scan::opt_view(*base)),
{
    let mut res = String::from_str(PROBE_HEAD);
    res.append(python_path(root).as_str());
    res.append(PROBE_AFTER_ROOT);
    res.append(python_path(package).as_str());
    res.append(PROBE_AFTER_PACKAGE);
    res.append(python_escaped(provider).as_str());
    res.append(PROBE_AFTER_MODEL);
    res.append(python_escaped(key).as_str());
    res.append(PROBE_AFTER_KEY);
    match base {
        Some(b) => {
            res.append("True");
            res.append(PROBE_AFTER_FLAG);
            res.append(python_raw_literal(b.as_str()).as_str());
        },
        None => {
            res.append("False");
            res.append(PROBE_AFTER_FLAG);
            res.append("None");
        },
    }
    res.append(PROBE_TAIL);
    res
}

/// The system interpreter the probe runs with: `python` when it answers,
/// else `python3`.
pub open spec fn probe_interpreter(python_ok: bool, python3_ok: bool) -> Result<Seq<char>, Seq<char>> {
    if python_ok {
        Ok("python"@)
    } else if python3_ok {
        Ok("python3"@)
    } else {
        Err(
            "未找到系统 Python。请确保已安装 Python 3.12+，并且 Strix 的依赖已安装（运行: cd strix-0.4.0 && poetry install）"@,
        )
    }
}

/// The system interpreter the probe runs with.
pub fn probe_python(python_ok: bool, python3_ok: bool) -> (res: Result<String, String>)
    ensures
        match (res, probe_interpreter(python_ok, python3_ok)) {
            (Ok(p), Ok(q)) => p@ == q,
            (Err(m), Err(n)) => m@ == n,
            _ => false,
        },
{
    if python_ok {
        Ok(String::from_str("python"))
    } else if python3_ok {
        Ok(String::from_str("python3"))
    } else {
        Err(
            String::from_str(
                "未找到系统 Python。请确保已安装 Python 3.12+，并且 Strix 的依赖已安装（运行: cd strix-0.4.0 && poetry install）",
            ),
        )
    }
}

/// The answer of a probe, from whether the program succeeded and its
/// output (decoded with replacement characters where it is not UTF-8).
pub open spec fn probe_answer(success: bool, stdout: Seq<char>, stderr: Seq<char>) -> Result<
    Seq<char>,
    Seq<char>,
> {
    if success {
        if trim(stdout).len() == 0 {
            Ok("✅ LLM 连接测试成功，但未收到输出"@)
        } else {
            Ok(trim(stdout))
        }
    } else if trim(stderr).len() == 0 {
        Err("LLM 连接测试失败: "@ + trim(stdout))
    } else {
        Err(trim(stderr) + "\n"@ + trim(stdout))
    }
}

/// The answer of a probe.
pub fn probe_result(success: bool, stdout: &[u8], stderr: &[u8]) -> (res: Result<String, String>)
    ensures
        match (res, probe_answer(success, lossy_utf8(stdout@), lossy_utf8(stderr@))) {
            (Ok(p), Ok(q)) => p@ == q,
            (Err(m), Err(n)) => m@ == n,
            _ => false,
        },
{
    let out = utf8_lossy(stdout);
    let err = utf8_lossy(stderr);
    let o = trim_chars(chars_of(out.as_str()).as_slice());
    let e = trim_chars(chars_of(err.as_str()).as_slice());
    if success {
        if o.len() == 0 {
            Ok(String::from_str("✅ LLM 连接测试成功，但未收到输出"))
        } else {
            Ok(string_of(o.as_slice()))
        }
    } else if e.len() == 0 {
        let mut m = String::from_str("LLM 连接测试失败: ");
        crate::text::push_chars(&mut m, o.as_slice());
        Err(m)
    } else {
        let mut m = string_of(e.as_slice());
        m.append("\n");
        crate::text::push_chars(&mut m, o.as_slice());
        Err(m)
    }
}

// ---------------------------------------------------------------------------
// Whether a system interpreter is there
// ---------------------------------------------------------------------------

/// The answer of the interpreter check: whether `python --version` exited
/// successfully when it could be started; otherwise the same for
/// `python3 --version`, or the error of starting that.
pub open spec fn python_check_of(python: Option<bool>, python3: Result<bool, Seq<char>>) -> Result<
    bool,
    Seq<char>,
> {
    match python {
        Some(ok) => Ok(ok),
        None => match python3 {
            Ok(ok) => Ok(ok),
            Err(e) => Err("系统 Python 未安装或不在 PATH 中: "@ + e),
        },
    }
}

/// The answer of the interpreter check. `python3` is only looked at when
/// `python` could not be started.
pub fn python_check(python: Option<bool>, python3: Result<bool, String>) -> (res: Result<
    bool,
    String,
>)
    ensures
        match (
            res,
            python_check_of(python, match python3 { Ok(b) => Ok(b), Err(e) => Err(e@) }),
        ) {
            (Ok(a), Ok(b)) => a == b,
            (Err(m), Err(n)) => m@ == n,
            _ => false,
        },
{
    match python {
        Some(ok) => Ok(ok),
        None => match python3 {
            Ok(ok) => Ok(ok),
            Err(e) => {
                let mut m = String::from_str("系统 Python 未安装或不在 PATH 中: ");
                m.append(e.as_str());
                Err(m)
            },
        },
    }
}

// ---------------------------------------------------------------------------
// Before an embedded run
// ---------------------------------------------------------------------------

/// Whether the entry script and the scanner's directory are there, with
/// the paths as they are displayed: the error that stops an embedded run
/// before anything else, the script being checked first.
pub open spec fn paths_failure(
    script_exists: bool,
    script: Seq<char>,
    dir_exists: bool,
    dir: Seq<char>,
) -> Option<Seq<char>> {
    if !script_exists {
        Some("Strix 主程序不存在: "@ + script)
    } else if !dir_exists {
        Some("Strix 目录不存在: "@ + dir)
    } else {
        None
    }
}

/// Checks that the entry script and the scanner's directory are there.
pub fn embedded_paths_check(
    script_exists: bool,
    script: &str,
    dir_exists: bool,
    dir: &str,
) -> (res: Result<(), String>)
    ensures
        match paths_failure(script_exists, script@, dir_exists, dir@) {
            Some(m) => res matches Err(e) && e@ == m,
            None => res is Ok,
        },
{
    if !script_exists {
        let mut m = String::from_str("Strix 主程序不存在: ");
        m.append(script);
        Err(m)
    } else if !dir_exists {
        let mut m = String::from_str("Strix 目录不存在: ");
        m.append(dir);
        Err(m)
    } else {
        Ok(())
    }
}

/// The error of preparing the workspace of an embedded run: creating it
/// (when `creating`) or then accessing it failed with `error`.
pub fn workspace_failure(creating: bool, workspace: &str, error: &str) -> (res: String)
    ensures
        res@ == (if creating {
            "创建工作目录失败 (路径: "@
        } else {
            "无法访问工作目录 (路径: "@
        }) + workspace@ + "): "@ + error@,
{
    let mut m = if creating {
        String::from_str("创建工作目录失败 (路径: ")
    } else {
        String::from_str("无法访问工作目录 (路径: ")
    };
    m.append(workspace);
    m.append("): ");
    m.append(error);
    m
}

} // verus!

//! The command lines that run a scan in the Strix container (with the shell
//! quoting they use and the token of the container's tool server), and the
//! reading of what `docker` reports about running containers and images.

use vstd::prelude::*;
use rand::Rng;
use crate::scan::{opt_view, ScanConfig};
use crate::text::{
    chars_of, has_prefix, starts_with_chars, join, join_strings, lines, lines_chars, push_char, push_decimal,
    decimal, replace_char, replace_char_str, starts_with, string_of, string_views, trim,
    trim_chars, utf8_decode, views_of,
};

verus! {

// ---------------------------------------------------------------------------
// Building argument lists
// ---------------------------------------------------------------------------

fn push_arg(args: &mut Vec<String>, a: String)
    ensures
        string_views(final(args)@) == string_views(old(args)@).push(a@),
{
    let ghost before = args@;
    args.push(a);
    proof {
        assert(string_views(args@) =~= string_views(before).push(a@));
    }
}

fn push_lit(args: &mut Vec<String>, a: &str)
    ensures
        string_views(final(args)@) == string_views(old(args)@).push(a@),
{
    push_arg(args, String::from_str(a));
}

/// Pushes `-e` and `name` followed by `value`.
fn push_env(args: &mut Vec<String>, name: &str, value: &str)
    ensures
        string_views(final(args)@) == string_views(old(args)@) + seq!["-e"@, name@ + value@],
{
    let ghost before = string_views(args@);
    push_lit(args, "-e");
    let mut v = String::from_str(name);
    v.append(value);
    push_arg(args, v);
    proof {
        assert(string_views(args@) =~= before + seq!["-e"@, name@ + value@]);
    }
}

fn append_args(args: &mut Vec<String>, more: Vec<String>)
    ensures
        string_views(final(args)@) == string_views(old(args)@) + string_views(more@),
{
    let ghost before = string_views(args@);
    let mut i: usize = 0;
    while i < more.len()
        invariant
            i <= more@.len(),
            string_views(args@) == before + string_views(more@.take(i as int)),
        decreases more@.len() - i,
    {
        push_arg(args, more[i].clone());
        proof {
            assert(string_views(more@.take(i + 1)) =~= string_views(more@.take(i as int)).push(
                more@[i as int]@,
            ));
        }
        i = i + 1;
    }
    proof {
        assert(more@.take(more@.len() as int) == more@);
    }
}

// ---------------------------------------------------------------------------
// Scan arguments
// ---------------------------------------------------------------------------

/// A flag and its value, when there is a value.
pub open spec fn flag_value(flag: Seq<char>, v: Option<String>) -> Seq<Seq<char>> {
    match v {
        Some(x) => seq![flag, x@],
        None => Seq::empty(),
    }
}

/// `--non-interactive` when asked for.
pub open spec fn non_interactive_flag(on: bool) -> Seq<Seq<char>> {
    if on {
        seq!["--non-interactive"@]
    } else {
        Seq::empty()
    }
}

/// What follows the target flag: the targets, then the instruction, run
/// name and non-interactive flag when given.
pub open spec fn scan_args(c: ScanConfig) -> Seq<Seq<char>> {
    string_views(c.targets@) + flag_value("--instruction"@, c.instruction) + flag_value(
        "--run-name"@,
        c.run_name,
    ) + non_interactive_flag(c.non_interactive)
}

/// The arguments of the scanner's command line.
pub open spec fn cli_args(c: ScanConfig) -> Seq<Seq<char>> {
    seq!["--target"@] + scan_args(c)
}

fn push_flag_value(args: &mut Vec<String>, flag: &str, v: &Option<String>)
    ensures
        string_views(final(args)@) == string_views(old(args)@) + flag_value(flag@, *v),
{
    let ghost before = string_views(args@);
    match v {
        Some(x) => {
            push_lit(args, flag);
            push_arg(args, x.clone());
            proof {
                assert(string_views(args@) =~= before + flag_value(flag@, *v));
            }
        },
        None => {
            proof {
                assert(string_views(args@) =~= before + flag_value(flag@, *v));
            }
        },
    }
}

/// Appends the scan arguments of a configuration.
fn push_scan_args(args: &mut Vec<String>, c: &ScanConfig)
    ensures
        string_views(final(args)@) == string_views(old(args)@) + scan_args(*c),
{
    let ghost before = string_views(args@);
    append_args(args, c.targets.clone());
    push_flag_value(args, "--instruction", &c.instruction);
    push_flag_value(args, "--run-name", &c.run_name);
    if c.non_interactive {
        push_lit(args, "--non-interactive");
    }
    proof {
        assert(string_views(args@) =~= before + scan_args(*c));
    }
}

/// The arguments of the scanner's command line for a configuration.
pub fn strix_cli_args(c: &ScanConfig) -> (res: Vec<String>)
    ensures
        string_views(res@) == cli_args(*c),
{
    let mut args: Vec<String> = Vec::new();
    push_lit(&mut args, "--target");
    push_scan_args(&mut args, c);
    proof {
        assert(string_views(args@) =~= cli_args(*c));
    }
    args
}

// ---------------------------------------------------------------------------
// The shell command run inside a running container
// ---------------------------------------------------------------------------

/// A string quoted for a POSIX shell: in single quotes, each single quote
/// written as `'"'"'`.
pub open spec fn shell_quote(s: Seq<char>) -> Seq<char> {
    "'"@ + replace_char(s, '\'', "'\"'\"'"@) + "'"@
}

/// Where a POSIX shell is while reading a word: outside quotes, inside
/// single quotes, inside double quotes, or stopped at a character this
/// reading does not take literally (unquoted, or `$`, `` ` `` or `\\`
/// inside double quotes).
pub enum ShellMode {
    Outside,
    Single,
    Double,
    Stopped,
}

/// One character read by the shell: quotes open and close, and what stands
/// inside them is taken literally.
pub open spec fn shell_step(state: (ShellMode, Seq<char>), c: char) -> (ShellMode, Seq<char>) {
    let (mode, out) = state;
    match mode {
        ShellMode::Outside => if c == '\'' {
            (ShellMode::Single, out)
        } else if c == '"' {
            (ShellMode::Double, out)
        } else {
            (ShellMode::Stopped, out)
        },
        ShellMode::Single => if c == '\'' {
            (ShellMode::Outside, out)
        } else {
            (ShellMode::Single, out.push(c))
        },
        ShellMode::Double => if c == '"' {
            (ShellMode::Outside, out)
        } else if c == '$' || c == '`' || c == '\\' {
            (ShellMode::Stopped, out)
        } else {
            (ShellMode::Double, out.push(c))
        },
        ShellMode::Stopped => (ShellMode::Stopped, out),
    }
}

/// The shell's state after reading a text from the start of a word.
pub open spec fn shell_run(w: Seq<char>) -> (ShellMode, Seq<char>)
    decreases w.len(),
{
    if w.len() == 0 {
        (ShellMode::Outside, Seq::empty())
    } else {
        shell_step(shell_run(w.drop_last()), w.last())
    }
}

/// The word a shell reads from a text made only of quoted parts: what the
/// quotes hold, when every quote is closed.
pub open spec fn shell_word(w: Seq<char>) -> Option<Seq<char>> {
    let (mode, out) = shell_run(w);
    if mode is Outside {
        Some(out)
    } else {
        None
    }
}

proof fn lemma_shell_run_push(w: Seq<char>, c: char)
    ensures
        shell_run(w.push(c)) == shell_step(shell_run(w), c),
{
    assert(w.push(c).drop_last() =~= w);
}

proof fn lemma_quoted_body(s: Seq<char>)
    ensures
        shell_run("'"@ + replace_char(s, '\'', "'\"'\"'"@)) == (ShellMode::Single, s),
    decreases s.len(),
{
    reveal_strlit("'");
    reveal_strlit("'\"'\"'");
    let q = "'\"'\"'"@;
    if s.len() == 0 {
        assert("'"@ + replace_char(s, '\'', q) =~= seq!['\'']);
        assert(seq!['\''].drop_last() =~= Seq::<char>::empty());
        assert(s =~= Seq::<char>::empty());
        assert(shell_run(seq!['\'']) == shell_step(shell_run(Seq::<char>::empty()), '\''));
    } else {
        let t = s.drop_last();
        let c = s.last();
        lemma_quoted_body(t);
        let w0 = "'"@ + replace_char(t, '\'', q);
        if c == '\'' {
            assert("'"@ + replace_char(s, '\'', q) =~= w0.push('\'').push('"').push('\'').push(
                '"',
            ).push('\''));
            lemma_shell_run_push(w0, '\'');
            lemma_shell_run_push(w0.push('\''), '"');
            lemma_shell_run_push(w0.push('\'').push('"'), '\'');
            lemma_shell_run_push(w0.push('\'').push('"').push('\''), '"');
            lemma_shell_run_push(w0.push('\'').push('"').push('\'').push('"'), '\'');
            assert(shell_run(w0) == (ShellMode::Single, t));
            assert(shell_run(w0.push('\'')) == (ShellMode::Outside, t));
            assert(shell_run(w0.push('\'').push('"')) == (ShellMode::Double, t));
            assert(shell_run(w0.push('\'').push('"').push('\'')) == (ShellMode::Double, t.push('\'')));
            assert(t.push('\'') =~= s);
        } else {
            assert("'"@ + replace_char(s, '\'', q) =~= w0.push(c));
            lemma_shell_run_push(w0, c);
            assert(shell_run(w0) == (ShellMode::Single, t));
            assert(t.push(c) =~= s);
        }
    }
}

/// A quoted string reads back as itself: a POSIX shell reading
/// `shell_quote(s)` as a word gets `s`, whatever `s` holds.
pub proof fn lemma_shell_quote_reads_back(s: Seq<char>)
    ensures
        shell_word(shell_quote(s)) == Some(s),
{
    reveal_strlit("'");
    let q = "'\"'\"'"@;
    let body = "'"@ + replace_char(s, '\'', q);
    lemma_quoted_body(s);
    assert(shell_quote(s) =~= body.push('\''));
    lemma_shell_run_push(body, '\'');
}

/// Quotes a string for a POSIX shell.
pub fn shell_quoted(s: &str) -> (res: String)
    ensures
        res@ == shell_quote(s@),
{
    let mut res = String::from_str("'");
    let body = replace_char_str(s, '\'', "'\"'\"'");
    res.append(body.as_str());
    res.append("'");
    res
}

/// `--target` and the quoted target, for each target.
pub open spec fn quoted_targets(ts: Seq<Seq<char>>) -> Seq<Seq<char>>
    decreases ts.len(),
{
    if ts.len() == 0 {
        Seq::empty()
    } else {
        quoted_targets(ts.drop_last()) + seq!["--target"@, shell_quote(ts.last())]
    }
}

/// A flag and its quoted value, when there is a value.
pub open spec fn flag_quoted(flag: Seq<char>, v: Option<String>) -> Seq<Seq<char>> {
    match v {
        Some(x) => seq![flag, shell_quote(x@)],
        None => Seq::empty(),
    }
}

/// The words of the shell command that runs the scanner in a running
/// container, three steps chained with `&&`: go to the workspace; load the
/// proxy settings if there are any (a failure there is ignored, inside a
/// group so that it does not stop the chain); run the scanner through
/// Poetry with quoted arguments.
pub open spec fn strix_command_words(c: ScanConfig) -> Seq<Seq<char>> {
    seq![
        "cd /workspace"@,
        "&&"@,
        "{ source /etc/profile.d/proxy.sh 2>/dev/null || true; }"@,
        "&&"@,
        "poetry run strix"@,
    ] + quoted_targets(string_views(c.targets@)) + flag_quoted("--instruction"@, c.instruction)
        + flag_quoted("--run-name"@, c.run_name) + non_interactive_flag(c.non_interactive)
}

proof fn lemma_quoted_targets(ts: Seq<Seq<char>>)
    ensures
        quoted_targets(ts).len() == 2 * ts.len(),
        forall|k: int| 0 <= k < ts.len() ==> #[trigger] quoted_targets(ts)[2 * k] == "--target"@,
        forall|k: int|
            0 <= k < ts.len() ==> #[trigger] quoted_targets(ts)[2 * k + 1] == shell_quote(ts[k]),
    decreases ts.len(),
{
    if ts.len() > 0 {
        let prev = ts.drop_last();
        lemma_quoted_targets(prev);
        let q = quoted_targets(ts);
        let tail = seq!["--target"@, shell_quote(ts.last())];
        assert(q == quoted_targets(prev) + tail);
        assert forall|k: int| 0 <= k < ts.len() implies #[trigger] q[2 * k] == "--target"@ by {
            if k == prev.len() {
                assert(q[2 * k] == tail[0]);
            } else {
                assert(q[2 * k] == quoted_targets(prev)[2 * k]);
            }
        }
        assert forall|k: int| 0 <= k < ts.len() implies #[trigger] q[2 * k + 1] == shell_quote(
            ts[k],
        ) by {
            if k == prev.len() {
                assert(q[2 * k + 1] == tail[1]);
            } else {
                assert(prev[k] == ts[k]);
                assert(q[2 * k + 1] == quoted_targets(prev)[2 * k + 1]);
            }
        }
    }
}

/// The shell command hands the scanner each of its arguments: after
/// `poetry run strix` come `--target` and each target, then `--instruction`
/// and the instruction, `--run-name` and the run name, each only when set,
/// and `--non-interactive` last when asked for, nothing else; and each
/// target, instruction and run name is one word that a POSIX shell reads
/// back as exactly the value given.
pub proof fn lemma_shell_command_carries_arguments(c: ScanConfig)
    ensures
        ({
            let w = strix_command_words(c);
            let ts = string_views(c.targets@);
            let after_targets: int = 5 + 2 * ts.len() as int;
            let run_at = after_targets + if c.instruction is Some {
                2int
            } else {
                0int
            };
            let flag_at = run_at + if c.run_name is Some {
                2int
            } else {
                0int
            };
            &&& w[4] == "poetry run strix"@
            &&& w.len() == flag_at + if c.non_interactive {
                1int
            } else {
                0int
            }
            &&& forall|k: int|
                0 <= k < ts.len() ==> w[5 + 2 * k] == "--target"@ && shell_word(
                    #[trigger] w[6 + 2 * k],
                ) == Some(ts[k])
            &&& c.instruction matches Some(x) ==> w[after_targets] == "--instruction"@
                && shell_word(w[after_targets + 1]) == Some(x@)
            &&& c.run_name matches Some(x) ==> w[run_at] == "--run-name"@ && shell_word(
                w[run_at + 1],
            ) == Some(x@)
            &&& c.non_interactive ==> w[flag_at] == "--non-interactive"@
        }),
{
    let w = strix_command_words(c);
    let ts = string_views(c.targets@);
    let head = seq![
        "cd /workspace"@,
        "&&"@,
        "{ source /etc/profile.d/proxy.sh 2>/dev/null || true; }"@,
        "&&"@,
        "poetry run strix"@,
    ];
    let qt = quoted_targets(ts);
    let fi = flag_quoted("--instruction"@, c.instruction);
    let fr = flag_quoted("--run-name"@, c.run_name);
    let nf = non_interactive_flag(c.non_interactive);
    lemma_quoted_targets(ts);
    assert(w == head + qt + fi + fr + nf);
    assert forall|k: int| 0 <= k < ts.len() implies w[5 + 2 * k] == "--target"@ && shell_word(
        #[trigger] w[6 + 2 * k],
    ) == Some(ts[k]) by {
        assert(w[5 + 2 * k] == qt[2 * k]);
        assert(w[6 + 2 * k] == qt[2 * k + 1]);
        lemma_shell_quote_reads_back(ts[k]);
    }
    match c.instruction {
        Some(x) => {
            lemma_shell_quote_reads_back(x@);
        },
        None => {},
    }
    match c.run_name {
        Some(x) => {
            lemma_shell_quote_reads_back(x@);
        },
        None => {},
    }
}

/// The shell command, its words joined with spaces.
pub open spec fn strix_command(c: ScanConfig) -> Seq<char> {
    join(strix_command_words(c), " "@)
}

fn push_flag_quoted(args: &mut Vec<String>, flag: &str, v: &Option<String>)
    ensures
        string_views(final(args)@) == string_views(old(args)@) + flag_quoted(flag@, *v),
{
    let ghost before = string_views(args@);
    match v {
        Some(x) => {
            push_lit(args, flag);
            push_arg(args, shell_quoted(x.as_str()));
            proof {
                assert(string_views(args@) =~= before + flag_quoted(flag@, *v));
            }
        },
        None => {
            proof {
                assert(string_views(args@) =~= before + flag_quoted(flag@, *v));
            }
        },
    }
}

/// The shell command that runs the scanner in a running container.
pub fn strix_shell_command(c: &ScanConfig) -> (res: String)
    ensures
        res@ == strix_command(*c),
{
    let mut words: Vec<String> = Vec::new();
    push_lit(&mut words, "cd /workspace");
    push_lit(&mut words, "&&");
    push_lit(&mut words, "{ source /etc/profile.d/proxy.sh 2>/dev/null || true; }");
    push_lit(&mut words, "&&");
    push_lit(&mut words, "poetry run strix");
    let ghost head = string_views(words@);
    let mut i: usize = 0;
    while i < c.targets.len()
        invariant
            i <= c.targets@.len(),
            string_views(words@) == head + quoted_targets(string_views(c.targets@.take(i as int))),
        decreases c.targets@.len() - i,
    {
        push_lit(&mut words, "--target");
        push_arg(&mut words, shell_quoted(c.targets[i].as_str()));
        proof {
            let ts = string_views(c.targets@.take(i + 1));
            assert(ts.drop_last() =~= string_views(c.targets@.take(i as int)));
            assert(ts.last() == c.targets@[i as int]@);
            assert(string_views(words@) =~= head + quoted_targets(ts));
        }
        i = i + 1;
    }
    proof {
        assert(c.targets@.take(c.targets@.len() as int) == c.targets@);
    }
    push_flag_quoted(&mut words, "--instruction", &c.instruction);
    push_flag_quoted(&mut words, "--run-name", &c.run_name);
    if c.non_interactive {
        push_lit(&mut words, "--non-interactive");
    }
    proof {
        assert(string_views(words@) =~= strix_command_words(*c));
    }
    join_strings(&words, " ")
}

// ---------------------------------------------------------------------------
// The environment of the scanner
// ---------------------------------------------------------------------------

/// `-e` and `NAME=base`, when the API base is set.
pub open spec fn base_env(name: Seq<char>, base: Option<String>) -> Seq<Seq<char>> {
    match base {
        Some(b) => if b@.len() > 0 {
            seq!["-e"@, name + b@]
        } else {
            Seq::empty()
        },
        None => Seq::empty(),
    }
}

/// The provider-specific key (and, for DeepSeek, base address) variables.
pub open spec fn provider_env(c: ScanConfig) -> Seq<Seq<char>> {
    let p = c.llm_provider@;
    let key = c.llm_api_key@;
    if has_prefix(p, "deepseek/"@) {
        seq!["-e"@, "DEEPSEEK_API_KEY="@ + key] + base_env("DEEPSEEK_API_BASE="@, c.llm_api_base)
    } else if has_prefix(p, "openai/"@) {
        seq!["-e"@, "OPENAI_API_KEY="@ + key]
    } else if has_prefix(p, "anthropic/"@) {
        seq!["-e"@, "ANTHROPIC_API_KEY="@ + key]
    } else {
        Seq::empty()
    }
}

/// The `-e` options that hand the model settings to the scanner.
pub open spec fn llm_env(c: ScanConfig) -> Seq<Seq<char>> {
    seq![
        "-e"@,
        "STRIX_LLM="@ + c.llm_provider@,
        "-e"@,
        "LLM_API_KEY="@ + c.llm_api_key@,
        "-e"@,
        "PYTHONPATH=/app"@,
    ] + base_env("LLM_API_BASE="@, c.llm_api_base) + provider_env(c)
}

fn push_base_env(args: &mut Vec<String>, name: &str, base: &Option<String>)
    ensures
        string_views(final(args)@) == string_views(old(args)@) + base_env(name@, *base),
{
    let ghost before = string_views(args@);
    match base {
        Some(b) => {
            if b.as_str().unicode_len() > 0 {
                push_env(args, name, b.as_str());
            }
        },
        None => {},
    }
    proof {
        assert(string_views(args@) =~= before + base_env(name@, *base));
    }
}

fn push_llm_env(args: &mut Vec<String>, c: &ScanConfig)
    ensures
        string_views(final(args)@) == string_views(old(args)@) + llm_env(*c),
{
    let ghost before = string_views(args@);
    push_env(args, "STRIX_LLM=", c.llm_provider.as_str());
    push_env(args, "LLM_API_KEY=", c.llm_api_key.as_str());
    push_lit(args, "-e");
    push_lit(args, "PYTHONPATH=/app");
    push_base_env(args, "LLM_API_BASE=", &c.llm_api_base);
    let ghost mid = string_views(args@);
    let p = c.llm_provider.as_str();
    if starts_with(p, "deepseek/") {
        push_env(args, "DEEPSEEK_API_KEY=", c.llm_api_key.as_str());
        push_base_env(args, "DEEPSEEK_API_BASE=", &c.llm_api_base);
    } else if starts_with(p, "openai/") {
        push_env(args, "OPENAI_API_KEY=", c.llm_api_key.as_str());
    } else if starts_with(p, "anthropic/") {
        push_env(args, "ANTHROPIC_API_KEY=", c.llm_api_key.as_str());
    }
    proof {
        assert(string_views(args@) =~= mid + provider_env(*c));
        assert(string_views(args@) =~= before + llm_env(*c));
    }
}

// ---------------------------------------------------------------------------
// The two docker command lines
// ---------------------------------------------------------------------------

/// `docker` arguments that run the scan in an already running container:
/// the model settings, then the shell command, then the scan arguments.
pub open spec fn exec_args(c: ScanConfig, container: Seq<char>) -> Seq<Seq<char>> {
    seq!["exec"@, "-i"@, "-w"@, "/workspace"@] + llm_env(c) + seq![
        container,
        "bash"@,
        "-c"@,
        strix_command(c),
    ] + scan_args(c)
}

/// The `docker` arguments that run the scan in a running container.
pub fn docker_exec_args(c: &ScanConfig, container: &str) -> (res: Vec<String>)
    ensures
        string_views(res@) == exec_args(*c, container@),
{
    let mut args: Vec<String> = Vec::new();
    push_lit(&mut args, "exec");
    push_lit(&mut args, "-i");
    push_lit(&mut args, "-w");
    push_lit(&mut args, "/workspace");
    push_llm_env(&mut args, c);
    push_lit(&mut args, container);
    push_lit(&mut args, "bash");
    push_lit(&mut args, "-c");
    push_arg(&mut args, strix_shell_command(c));
    push_scan_args(&mut args, c);
    proof {
        assert(string_views(args@) =~= exec_args(*c, container@));
    }
    args
}

/// What starts a fresh scan container: the workspace mounted, the ports and
/// token of its tool server, the model settings, the capabilities, the
/// image, and the scanner with its arguments.
#[derive(Debug, Clone, PartialEq)]
pub struct ContainerSetup {
    pub workspace: String,
    pub caido_port: u16,
    pub tool_server_port: u16,
    pub tool_server_token: String,
    pub image: String,
}

/// `docker` arguments that start a new container for the scan. Backslashes
/// in the workspace path become forward slashes.
pub open spec fn run_args(c: ScanConfig, s: ContainerSetup) -> Seq<Seq<char>> {
    seq![
        "run"@,
        "--rm"@,
        "-i"@,
        "-v"@,
        replace_char(s.workspace@, '\\', "/"@) + ":/workspace"@,
        "-e"@,
        "PYTHONUNBUFFERED=1"@,
        "-e"@,
        "CAIDO_PORT="@ + decimal(s.caido_port as nat),
        "-e"@,
        "TOOL_SERVER_PORT="@ + decimal(s.tool_server_port as nat),
        "-e"@,
        "TOOL_SERVER_TOKEN="@ + s.tool_server_token@,
    ] + llm_env(c) + seq![
        "--cap-add=NET_ADMIN"@,
        "--cap-add=NET_RAW"@,
        s.image@,
        "strix"@,
    ] + cli_args(c)
}

/// The scanner is handed the same arguments wherever it runs: the command
/// line for a fresh container ends with the scanner's own command line, and
/// the one for a running container ends with the scan arguments.
pub proof fn lemma_scanner_arguments_last(c: ScanConfig, s: ContainerSetup, container: Seq<char>)
    ensures
        run_args(c, s).skip(run_args(c, s).len() - cli_args(c).len()) == cli_args(c),
        exec_args(c, container).skip(exec_args(c, container).len() - scan_args(c).len())
            == scan_args(c),
{
    assert(run_args(c, s).skip(run_args(c, s).len() - cli_args(c).len()) =~= cli_args(c));
    assert(exec_args(c, container).skip(exec_args(c, container).len() - scan_args(c).len())
        =~= scan_args(c));
}

fn push_number_env(args: &mut Vec<String>, name: &str, n: u16)
    ensures
        string_views(final(args)@) == string_views(old(args)@) + seq![
            "-e"@,
            name@ + decimal(n as nat),
        ],
{
    let ghost before = string_views(args@);
    push_lit(args, "-e");
    let mut v = String::from_str(name);
    push_decimal(&mut v, n as u64);
    push_arg(args, v);
    proof {
        assert(string_views(args@) =~= before + seq!["-e"@, name@ + decimal(n as nat)]);
    }
}

/// The `docker` arguments that start a new container for the scan.
pub fn docker_run_args(c: &ScanConfig, s: &ContainerSetup) -> (res: Vec<String>)
    ensures
        string_views(res@) == run_args(*c, *s),
{
    let mut args: Vec<String> = Vec::new();
    push_lit(&mut args, "run");
    push_lit(&mut args, "--rm");
    push_lit(&mut args, "-i");
    push_lit(&mut args, "-v");
    let mut mount = replace_char_str(s.workspace.as_str(), '\\', "/");
    mount.append(":/workspace");
    push_arg(&mut args, mount);
    push_lit(&mut args, "-e");
    push_lit(&mut args, "PYTHONUNBUFFERED=1");
    push_number_env(&mut args, "CAIDO_PORT=", s.caido_port);
    push_number_env(&mut args, "TOOL_SERVER_PORT=", s.tool_server_port);
    push_env(&mut args, "TOOL_SERVER_TOKEN=", s.tool_server_token.as_str());
    push_llm_env(&mut args, c);
    push_lit(&mut args, "--cap-add=NET_ADMIN");
    push_lit(&mut args, "--cap-add=NET_RAW");
    push_lit(&mut args, s.image.as_str());
    push_lit(&mut args, "strix");
    push_lit(&mut args, "--target");
    push_scan_args(&mut args, c);
    proof {
        assert(string_views(args@) =~= run_args(*c, *s));
    }
    args
}

// ---------------------------------------------------------------------------
// What `docker ps` and `docker images` report
// ---------------------------------------------------------------------------

/// The name of a running scan container in the output of
/// `docker ps --format {{.Names}}`: its first line, trimmed, when the output
/// is text and that line is not blank.
pub open spec fn first_container(out: Seq<u8>) -> Option<Seq<char>> {
    if vstd::utf8::valid_utf8(out) {
        let ls = lines(vstd::utf8::decode_utf8(out));
        if ls.len() > 0 && trim(ls[0]).len() > 0 {
            Some(trim(ls[0]))
        } else {
            None
        }
    } else {
        None
    }
}

/// The running container named in the output of `docker ps`.
pub fn container_from_ps(stdout: Vec<u8>) -> (res: Option<String>)
    ensures
        opt_view(res) == first_container(stdout@),
{
    let ghost out = stdout@;
    match utf8_decode(stdout) {
        Some(text) => {
            let cs = chars_of(text.as_str());
            let ls = lines_chars(cs.as_slice());
            if ls.len() > 0 {
                let name = trim_chars(ls[0].as_slice());
                proof {
                    assert(ls@[0]@ == lines(text@)[0]);
                }
                if name.len() > 0 {
                    Some(string_of(name.as_slice()))
                } else {
                    None
                }
            } else {
                None
            }
        },
        None => None,
    }
}

/// The images a scan can run in, in the order they are looked for.
pub open spec fn image_candidates() -> Seq<Seq<char>> {
    seq![
        "strix:0.4.0"@,
        "strix-agent:0.4.0"@,
        "usestrix/strix:0.4.0"@,
        "strix:latest"@,
        "ghcr.io/usestrix/strix-sandbox:0.1.10"@,
        "ghcr.io/usestrix/strix-sandbox:latest"@,
    ]
}

/// The images a scan can run in, in the order they are looked for.
pub fn strix_image_candidates() -> (res: Vec<String>)
    ensures
        string_views(res@) == image_candidates(),
{
    let mut v: Vec<String> = Vec::new();
    push_lit(&mut v, "strix:0.4.0");
    push_lit(&mut v, "strix-agent:0.4.0");
    push_lit(&mut v, "usestrix/strix:0.4.0");
    push_lit(&mut v, "strix:latest");
    push_lit(&mut v, "ghcr.io/usestrix/strix-sandbox:0.1.10");
    push_lit(&mut v, "ghcr.io/usestrix/strix-sandbox:latest");
    proof {
        assert(string_views(v@) =~= image_candidates());
    }
    v
}

/// The output of `docker images --format {{.Repository}}:{{.Tag}}` lists
/// the image: it is text and one of its lines, trimmed, is the name.
pub open spec fn lists_image(out: Seq<u8>, name: Seq<char>) -> bool {
    vstd::utf8::valid_utf8(out) && exists|i: int|
        0 <= i < lines(vstd::utf8::decode_utf8(out)).len() && #[trigger] trim(
            lines(vstd::utf8::decode_utf8(out))[i],
        ) == name
}

/// Whether an image listing names the image.
pub fn listing_has_image(stdout: Vec<u8>, name: &str) -> (res: bool)
    ensures
        res == lists_image(stdout@, name@),
{
    let ghost out = stdout@;
    match utf8_decode(stdout) {
        Some(text) => {
            let cs = chars_of(text.as_str());
            let ls = lines_chars(cs.as_slice());
            let ghost l = lines(text@);
            let target = chars_of(name);
            let mut i: usize = 0;
            while i < ls.len()
                invariant
                    i <= ls@.len(),
                    views_of(ls@) == l,
                    l == lines(vstd::utf8::decode_utf8(out)),
                    vstd::utf8::valid_utf8(out),
                    out == stdout@,
                    target@ == name@,
                    forall|j: int| 0 <= j < i ==> #[trigger] trim(l[j]) != name@,
                decreases ls@.len() - i,
            {
                let t = trim_chars(ls[i].as_slice());
                proof {
                    assert(ls@[i as int]@ == l[i as int]);
                }
                let same = t.len() == target.len() && starts_with_chars(
                    t.as_slice(),
                    target.as_slice(),
                );
                proof {
                    assert(t@.take(t@.len() as int) =~= t@);
                    assert(same == (t@ == name@));
                }
                if same {
                    proof {
                        assert(trim(l[i as int]) == name@);
                    }
                    return true;
                }
                i = i + 1;
            }
            false
        },
        None => false,
    }
}

/// The candidate at `i` is listed in the listing taken for it.
pub open spec fn listed_at(listings: Seq<Option<Vec<u8>>>, i: int) -> bool {
    &&& 0 <= i < listings.len()
    &&& i < image_candidates().len()
    &&& listings[i] matches Some(out) && lists_image(out@, image_candidates()[i])
}

/// What is reported when no candidate image is present.
pub open spec fn missing_image_message() -> Seq<char> {
    "未找到 Strix Docker 镜像。请运行: cd strix-0.4.0 && docker build -f containers/Dockerfile -t strix:0.4.0 ."@
}

/// The image a new scan container runs: the first candidate found in the
/// image listing taken for it (`listings[i]` for candidate `i`, `None` where
/// the listing could not be taken), or the error that none was found.
pub fn pick_strix_image(listings: &Vec<Option<Vec<u8>>>) -> (res: Result<String, String>)
    ensures
        res is Ok <==> exists|i: int| listed_at(listings@, i),
        res matches Ok(name) ==> exists|i: int|
            listed_at(listings@, i) && name@ == image_candidates()[i] && forall|j: int|
                0 <= j < i ==> !listed_at(listings@, j),
        res matches Err(m) ==> m@ == missing_image_message(),
{
    let candidates = strix_image_candidates();
    let mut i: usize = 0;
    while i < candidates.len()
        invariant
            i <= candidates@.len(),
            string_views(candidates@) == image_candidates(),
            forall|j: int| 0 <= j < i ==> !#[trigger] listed_at(listings@, j),
        decreases candidates@.len() - i,
    {
        proof {
            assert(candidates@[i as int]@ == image_candidates()[i as int]);
        }
        if i < listings.len() {
            match &listings[i] {
                Some(out) => {
                    if listing_has_image(out.clone(), candidates[i].as_str()) {
                        proof {
                            assert(listed_at(listings@, i as int));
                        }
                        return Ok(candidates[i].clone());
                    }
                },
                None => {},
            }
        }
        i = i + 1;
    }
    proof {
        assert forall|i: int| !listed_at(listings@, i) by {
            if 0 <= i < candidates@.len() {
            }
        }
    }
    Err(String::from_str("未找到 Strix Docker 镜像。请运行: cd strix-0.4.0 && docker build -f containers/Dockerfile -t strix:0.4.0 ."))
}

// ---------------------------------------------------------------------------
// Where a scan runs
// ---------------------------------------------------------------------------

/// The container named in the output of a `docker ps` that could be run
/// (`None` when it could not).
pub open spec fn ps_container(out: Option<Vec<u8>>) -> Option<Seq<char>> {
    match out {
        Some(o) => first_container(o@),
        None => None,
    }
}

/// Whether the search by label is needed: the search by name found no
/// running scan container.
pub fn label_search_needed(by_name: &Option<Vec<u8>>) -> (res: bool)
    ensures
        res == ps_container(*by_name) is None,
{
    match by_name {
        Some(out) => match container_from_ps(out.clone()) {
            Some(_) => false,
            None => true,
        },
        None => true,
    }
}

/// Whether another image listing is needed: fewer listings than candidates
/// have been taken, and none of them lists its candidate.
pub fn listing_needed(listings: &Vec<Option<Vec<u8>>>) -> (res: bool)
    ensures
        res == (listings@.len() < image_candidates().len() && forall|i: int|
            !listed_at(listings@, i)),
{
    if listings.len() >= 6 {
        return false;
    }
    match pick_strix_image(listings) {
        Ok(_) => false,
        Err(_) => true,
    }
}

/// Where a scan runs: in a running scan container, or in a new container
/// of an image.
#[derive(Debug, Clone, PartialEq)]
pub enum ScanPlace {
    Running(String),
    NewContainer(String),
}

/// Where a scan runs, from the output of `docker ps` filtered by name, that
/// filtered by label (asked only when the first finds nothing), and the
/// image listings taken for the candidates: the container the name search
/// finds, else the one the label search finds, else a new container of the
/// first candidate image that is present, else the error that there is no
/// image.
pub fn choose_scan_place(
    by_name: Option<Vec<u8>>,
    by_label: Option<Vec<u8>>,
    listings: &Vec<Option<Vec<u8>>>,
) -> (res: Result<ScanPlace, String>)
    ensures
        match ps_container(by_name) {
            Some(c) => res matches Ok(ScanPlace::Running(r)) && r@ == c,
            None => match ps_container(by_label) {
                Some(c) => res matches Ok(ScanPlace::Running(r)) && r@ == c,
                None => {
                    &&& (res is Ok <==> exists|i: int| listed_at(listings@, i))
                    &&& res matches Ok(place) ==> place matches ScanPlace::NewContainer(image)
                        && exists|i: int|
                        listed_at(listings@, i) && image@ == image_candidates()[i] && forall|j: int|
                            0 <= j < i ==> !listed_at(listings@, j)
                    &&& res matches Err(m) ==> m@ == missing_image_message()
                },
            },
        },
{
    let first = match by_name {
        Some(out) => container_from_ps(out),
        None => None,
    };
    match first {
        Some(c) => return Ok(ScanPlace::Running(c)),
        None => {},
    }
    let second = match by_label {
        Some(out) => container_from_ps(out),
        None => None,
    };
    match second {
        Some(c) => return Ok(ScanPlace::Running(c)),
        None => {},
    }
    match pick_strix_image(listings) {
        Ok(image) => Ok(ScanPlace::NewContainer(image)),
        Err(m) => Err(m),
    }
}

// ---------------------------------------------------------------------------
// The token of the tool server
// ---------------------------------------------------------------------------

/// `rand::Rng::gen_range(0..bound)` on the thread-local generator: a number
/// below `bound`, drawn at random. It panics on an empty range, which
/// `bound > 0` rules out.
#[verifier::external_body]
fn random_below(bound: usize) -> (res: usize)
    requires
        bound > 0,
    ensures
        res < bound,
{
    rand::thread_rng().gen_range(0..bound)
}

/// The characters a tool-server token is made of.
pub open spec fn token_alphabet() -> Seq<char> {
    "ABCDEFGHIJKLMNOPQRSTUVWXYZabcdefghijklmnopqrstuvwxyz0123456789"@
}

/// How many characters a tool-server token has.
pub const TOKEN_LENGTH: usize = 32;

fn alphabet() -> (res: Vec<char>)
    ensures
        res@ == token_alphabet(),
        res@.len() == 62,
{
    let a = "ABCDEFGHIJKLMNOPQRSTUVWXYZabcdefghijklmnopqrstuvwxyz0123456789";
    proof {
        reveal_strlit("ABCDEFGHIJKLMNOPQRSTUVWXYZabcdefghijklmnopqrstuvwxyz0123456789");
    }
    chars_of(a)
}

/// The token spelled by positions in the alphabet.
pub open spec fn token_of(indices: Seq<usize>) -> Seq<char> {
    indices.map_values(|i: usize| token_alphabet()[i as int])
}

/// The token spelled by positions in the alphabet.
pub fn token_from_indices(indices: &Vec<usize>) -> (res: String)
    requires
        forall|i: int| 0 <= i < indices@.len() ==> indices@[i] < token_alphabet().len(),
    ensures
        res@ == token_of(indices@),
{
    let a = alphabet();
    let mut res = String::new();
    let mut k: usize = 0;
    while k < indices.len()
        invariant
            k <= indices@.len(),
            a@ == token_alphabet(),
            forall|i: int| 0 <= i < indices@.len() ==> indices@[i] < token_alphabet().len(),
            res@ == token_of(indices@.take(k as int)),
        decreases indices@.len() - k,
    {
        push_char(&mut res, a[indices[k]]);
        proof {
            assert(token_of(indices@.take(k + 1)) =~= token_of(indices@.take(k as int)).push(
                token_alphabet()[indices@[k as int] as int],
            ));
        }
        k = k + 1;
    }
    proof {
        assert(indices@.take(indices@.len() as int) == indices@);
    }
    res
}

/// A fresh token for the tool server: `TOKEN_LENGTH` characters, each drawn
/// at random from the alphabet.
pub fn tool_server_token() -> (res: String)
    ensures
        res@.len() == TOKEN_LENGTH,
        forall|i: int| 0 <= i < res@.len() ==> token_alphabet().contains(#[trigger] res@[i]),
{
    let mut indices: Vec<usize> = Vec::new();
    while indices.len() < TOKEN_LENGTH
        invariant
            indices@.len() <= TOKEN_LENGTH,
            forall|i: int| 0 <= i < indices@.len() ==> indices@[i] < token_alphabet().len(),
        decreases TOKEN_LENGTH - indices@.len(),
    {
        proof {
            reveal_strlit("ABCDEFGHIJKLMNOPQRSTUVWXYZabcdefghijklmnopqrstuvwxyz0123456789");
        }
        indices.push(random_below(62));
    }
    let res = token_from_indices(&indices);
    proof {
        assert forall|i: int| 0 <= i < res@.len() implies token_alphabet().contains(
            #[trigger] res@[i],
        ) by {
            let j = indices@[i] as int;
            assert(res@[i] == token_alphabet()[j]);
        }
    }
    res
}

// ---------------------------------------------------------------------------
// Whether docker is there
// ---------------------------------------------------------------------------

/// The answer of the docker check, from running `docker --version`: the
/// error of starting it, or whether it exited successfully.
pub open spec fn docker_check_of(run: Result<bool, Seq<char>>) -> Result<bool, Seq<char>> {
    match run {
        Err(e) => Err("Docker 未安装或不在 PATH 中: "@ + e),
        Ok(false) => Err("Docker 命令执行失败"@),
        Ok(true) => Ok(true),
    }
}

/// The answer of the docker check.
pub fn docker_check(run: Result<bool, String>) -> (res: Result<bool, String>)
    ensures
        match (res, docker_check_of(match run { Ok(b) => Ok(b), Err(e) => Err(e@) })) {
            (Ok(a), Ok(b)) => a == b,
            (Err(m), Err(n)) => m@ == n,
            _ => false,
        },
{
    match run {
        Err(e) => {
            let mut m = String::from_str("Docker 未安装或不在 PATH 中: ");
            m.append(e.as_str());
            Err(m)
        },
        Ok(false) => Err(String::from_str("Docker 命令执行失败")),
        Ok(true) => Ok(true),
    }
}

} // verus!

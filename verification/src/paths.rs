//! Where the programs look for the files they need: the scanner's entry
//! script, the bundled Python interpreter, the feed server's entry module,
//! the scan workspace and the database. Paths are values; whether a file
//! exists is asked by the caller, candidate by candidate, in the order given
//! here.

use vstd::prelude::*;
use crate::text::{string_views, str_eq};

verus! {

/// A file-system path: its anchor (a root or a drive prefix, empty for a
/// relative path) and its components in order.
#[derive(Debug, Clone, PartialEq)]
pub struct FsPath {
    pub anchor: String,
    pub names: Vec<String>,
}

/// The mathematical value of an [`FsPath`].
pub struct PathView {
    pub anchor: Seq<char>,
    pub names: Seq<Seq<char>>,
}

impl View for FsPath {
    type V = PathView;

    open spec fn view(&self) -> PathView {
        PathView { anchor: self.anchor@, names: string_views(self.names@) }
    }
}

/// `Path::join` with plain component names.
pub open spec fn join(p: PathView, names: Seq<Seq<char>>) -> PathView {
    PathView { anchor: p.anchor, names: p.names + names }
}

/// `Path::parent`: the path without its last component, when it has one.
pub open spec fn parent(p: PathView) -> Option<PathView> {
    if p.names.len() > 0 {
        Some(PathView { anchor: p.anchor, names: p.names.drop_last() })
    } else {
        None
    }
}

/// `Path::ends_with` with a one-component path.
pub open spec fn ends_with(p: PathView, name: Seq<char>) -> bool {
    p.names.len() > 0 && p.names.last() == name
}

/// An optional path by its value.
pub open spec fn opt_path(p: Option<FsPath>) -> Option<PathView> {
    match p {
        Some(x) => Some(x@),
        None => None,
    }
}

/// A sequence of paths by their values.
pub open spec fn path_views(ps: Seq<FsPath>) -> Seq<PathView> {
    ps.map_values(|p: FsPath| p@)
}

fn path_clone(p: &FsPath) -> (res: FsPath)
    ensures
        res@ == p@,
{
    let mut names: Vec<String> = Vec::new();
    let mut i: usize = 0;
    while i < p.names.len()
        invariant
            i <= p.names@.len(),
            string_views(names@) == string_views(p.names@).take(i as int),
        decreases p.names@.len() - i,
    {
        let s = p.names[i].clone();
        let ghost old = names@;
        names.push(s);
        proof {
            assert(string_views(names@) =~= string_views(old).push(s@));
            assert(string_views(p.names@).take(i + 1) =~= string_views(p.names@).take(i as int).push(
                p.names@[i as int]@,
            ));
        }
        i = i + 1;
    }
    proof {
        assert(string_views(p.names@).take(p.names@.len() as int) =~= string_views(p.names@));
    }
    FsPath { anchor: p.anchor.clone(), names }
}

/// The path with one more component.
pub fn child(p: &FsPath, name: &str) -> (res: FsPath)
    ensures
        res@ == join(p@, seq![name@]),
{
    let mut q = path_clone(p);
    let ghost before = string_views(q.names@);
    q.names.push(String::from_str(name));
    proof {
        assert(string_views(q.names@) =~= before.push(name@));
        assert(q@.names =~= join(p@, seq![name@]).names);
    }
    q
}

/// The parent of a path, when it has one.
pub fn parent_of(p: &FsPath) -> (res: Option<FsPath>)
    ensures
        opt_path(res) == parent(p@),
{
    if p.names.len() == 0 {
        None
    } else {
        let mut q = path_clone(p);
        let ghost before = string_views(q.names@);
        q.names.pop();
        proof {
            assert(string_views(q.names@) =~= before.drop_last());
        }
        Some(q)
    }
}

/// Whether the last component of a path is `name`.
pub fn ends_with_name(p: &FsPath, name: &str) -> (res: bool)
    ensures
        res == ends_with(p@, name@),
{
    if p.names.len() == 0 {
        false
    } else {
        str_eq(p.names[p.names.len() - 1].as_str(), name)
    }
}

fn push_path(v: &mut Vec<FsPath>, p: FsPath)
    ensures
        path_views(final(v)@) == path_views(old(v)@).push(p@),
{
    let ghost before = v@;
    v.push(p);
    proof {
        assert(path_views(v@) =~= path_views(before).push(p@));
    }
}

// ---------------------------------------------------------------------------
// Picking the first candidate that exists
// ---------------------------------------------------------------------------

/// The candidate at `i` is known to exist: `exists[i]` answers for
/// candidate `i`, and candidates past the answers were not asked about.
pub open spec fn known_to_exist(exists: Seq<bool>, i: int) -> bool {
    0 <= i < exists.len() && exists[i]
}

/// The position of the first candidate that exists, if any does.
pub fn first_existing(count: usize, exists: &Vec<bool>) -> (res: Option<usize>)
    ensures
        res is None <==> forall|i: int| 0 <= i < count ==> !known_to_exist(exists@, i),
        res matches Some(k) ==> k < count && known_to_exist(exists@, k as int) && forall|i: int|
            0 <= i < k ==> !known_to_exist(exists@, i),
{
    let mut i: usize = 0;
    while i < count
        invariant
            i <= count,
            forall|j: int| 0 <= j < i ==> !known_to_exist(exists@, j),
        decreases count - i,
    {
        if i < exists.len() && exists[i] {
            assert(known_to_exist(exists@, i as int));
            return Some(i);
        }
        i = i + 1;
    }
    None
}

// ---------------------------------------------------------------------------
// The scanner's entry script
// ---------------------------------------------------------------------------

/// `strix-0.4.0/strix/interface/main.py` under a directory.
pub open spec fn strix_main_in(d: PathView) -> PathView {
    join(d, seq!["strix-0.4.0"@, "strix"@, "interface"@, "main.py"@])
}

/// The entry script under `d` and under `d/src-tauri`, then the same for
/// each parent, `levels` directories in all.
pub open spec fn strix_upward(d: PathView, levels: nat) -> Seq<PathView>
    decreases levels,
{
    if levels == 0 {
        Seq::empty()
    } else {
        seq![strix_main_in(d), strix_main_in(join(d, seq!["src-tauri"@]))] + match parent(d) {
            Some(p) => strix_upward(p, (levels - 1) as nat),
            None => Seq::empty(),
        }
    }
}

/// How many directories the upward searches visit.
pub const SEARCH_LEVELS: usize = 5;

/// Where the scanner's entry script is looked for, in order: in the
/// resources; when the working directory is `src-tauri`, under it; under the
/// working directory; when it is `src-tauri`, under its parent; and then up
/// from the working directory, directly and under `src-tauri`.
pub open spec fn strix_main_candidates(resource: Option<PathView>, cwd: Option<PathView>) -> Seq<
    PathView,
> {
    let from_resource = match resource {
        Some(r) => seq![strix_main_in(r)],
        None => Seq::empty(),
    };
    let from_cwd = match cwd {
        Some(c) => {
            let in_tauri = ends_with(c, "src-tauri"@);
            (if in_tauri {
                seq![strix_main_in(c)]
            } else {
                Seq::empty()
            }) + seq![strix_main_in(c)] + (if in_tauri && parent(c) is Some {
                seq![strix_main_in(parent(c)->0)]
            } else {
                Seq::empty()
            }) + strix_upward(c, SEARCH_LEVELS as nat)
        },
        None => Seq::empty(),
    };
    from_resource + from_cwd
}

proof fn lemma_strix_upward_scripts(d: PathView, levels: nat)
    ensures
        forall|i: int|
            0 <= i < strix_upward(d, levels).len() ==> exists|e: PathView|
                #[trigger] strix_upward(d, levels)[i] == strix_main_in(e),
        strix_upward(d, levels).len() <= 2 * levels,
    decreases levels,
{
    if levels > 0 {
        let head = seq![strix_main_in(d), strix_main_in(join(d, seq!["src-tauri"@]))];
        match parent(d) {
            Some(p) => {
                lemma_strix_upward_scripts(p, (levels - 1) as nat);
                let rest = strix_upward(p, (levels - 1) as nat);
                assert(strix_upward(d, levels) == head + rest);
                assert forall|i: int| 0 <= i < strix_upward(d, levels).len() implies exists|
                    e: PathView,
                | #[trigger] strix_upward(d, levels)[i] == strix_main_in(e) by {
                    if i == 0 {
                        assert(strix_upward(d, levels)[i] == strix_main_in(d));
                    } else if i == 1 {
                        assert(strix_upward(d, levels)[i] == strix_main_in(
                            join(d, seq!["src-tauri"@]),
                        ));
                    } else {
                        assert(strix_upward(d, levels)[i] == rest[i - 2]);
                    }
                }
            },
            None => {
                assert(strix_upward(d, levels) =~= head);
                assert forall|i: int| 0 <= i < strix_upward(d, levels).len() implies exists|
                    e: PathView,
                | #[trigger] strix_upward(d, levels)[i] == strix_main_in(e) by {
                    if i == 0 {
                        assert(strix_upward(d, levels)[i] == strix_main_in(d));
                    } else {
                        assert(strix_upward(d, levels)[i] == strix_main_in(
                            join(d, seq!["src-tauri"@]),
                        ));
                    }
                }
            },
        }
    }
}

/// Every place the entry script is looked for is a `main.py` in
/// `strix-0.4.0/strix/interface` below some directory, and at most fourteen
/// places are looked at.
pub proof fn lemma_strix_candidates_are_scripts(resource: Option<PathView>, cwd: Option<PathView>)
    ensures
        forall|i: int|
            0 <= i < strix_main_candidates(resource, cwd).len() ==> exists|d: PathView|
                #[trigger] strix_main_candidates(resource, cwd)[i] == strix_main_in(d),
        strix_main_candidates(resource, cwd).len() <= 14,
{
    let cands = strix_main_candidates(resource, cwd);
    let from_resource = match resource {
        Some(r) => seq![strix_main_in(r)],
        None => Seq::<PathView>::empty(),
    };
    match cwd {
        Some(c) => {
            lemma_strix_upward_scripts(c, SEARCH_LEVELS as nat);
            let in_tauri = ends_with(c, "src-tauri"@);
            let a = if in_tauri {
                seq![strix_main_in(c)]
            } else {
                Seq::<PathView>::empty()
            };
            let b = seq![strix_main_in(c)];
            let p = if in_tauri && parent(c) is Some {
                seq![strix_main_in(parent(c)->0)]
            } else {
                Seq::<PathView>::empty()
            };
            let up = strix_upward(c, SEARCH_LEVELS as nat);
            let front = from_resource + a + b + p;
            assert(cands == front + up);
            assert forall|i: int| 0 <= i < cands.len() implies exists|d: PathView|
                #[trigger] cands[i] == strix_main_in(d) by {
                if i < front.len() {
                    assert(forall|j: int|
                        0 <= j < front.len() ==> exists|d: PathView| #[trigger] front[j]
                            == strix_main_in(d)) by {
                        assert forall|j: int| 0 <= j < front.len() implies exists|d: PathView|
                            #[trigger] front[j] == strix_main_in(d) by {
                            let fa = from_resource + a;
                            let fb = fa + b;
                            if j < from_resource.len() {
                                assert(front[j] == from_resource[j]);
                                assert(front[j] == strix_main_in(resource->0));
                            } else if j < fa.len() {
                                assert(front[j] == a[j - from_resource.len()]);
                                assert(front[j] == strix_main_in(c));
                            } else if j < fb.len() {
                                assert(front[j] == strix_main_in(c));
                            } else {
                                assert(front[j] == p[j - fb.len()]);
                                assert(front[j] == strix_main_in(parent(c)->0));
                            }
                        }
                    }
                    assert(cands[i] == front[i]);
                } else {
                    assert(cands[i] == up[i - front.len()]);
                }
            }
        },
        None => {
            assert(cands =~= from_resource);
            assert forall|i: int| 0 <= i < cands.len() implies exists|d: PathView|
                #[trigger] cands[i] == strix_main_in(d) by {
                assert(cands[i] == strix_main_in(resource->0));
            }
        },
    }
}

fn strix_main_under(d: &FsPath) -> (res: FsPath)
    ensures
        res@ == strix_main_in(d@),
{
    let a = child(d, "strix-0.4.0");
    let b = child(&a, "strix");
    let c = child(&b, "interface");
    let r = child(&c, "main.py");
    proof {
        assert(r@.names =~= strix_main_in(d@).names);
    }
    r
}

fn push_strix_upward(v: &mut Vec<FsPath>, d: &FsPath, levels: usize)
    ensures
        path_views(final(v)@) == path_views(old(v)@) + strix_upward(d@, levels as nat),
    decreases levels,
{
    let ghost before = path_views(v@);
    if levels == 0 {
        proof {
            assert(before + strix_upward(d@, 0) =~= before);
        }
        return ;
    }
    let a = strix_main_under(d);
    let t = child(d, "src-tauri");
    let b = strix_main_under(&t);
    let ghost head = seq![a@, b@];
    push_path(v, a);
    push_path(v, b);
    proof {
        assert(path_views(v@) =~= before + head);
    }
    let ghost mid = path_views(v@);
    match parent_of(d) {
        Some(p) => {
            push_strix_upward(v, &p, levels - 1);
            proof {
                assert(strix_upward(d@, levels as nat) == head + strix_upward(
                    p@,
                    (levels - 1) as nat,
                ));
                assert(path_views(v@) =~= before + strix_upward(d@, levels as nat));
            }
        },
        None => {
            proof {
                assert(strix_upward(d@, levels as nat) =~= head);
            }
        },
    }
}

/// Where the scanner's entry script is looked for, in order. The scan runner
/// and the model probe both find the script this way, so they find the same
/// one.
pub fn strix_main_paths(resource: &Option<FsPath>, cwd: &Option<FsPath>) -> (res: Vec<FsPath>)
    ensures
        path_views(res@) == strix_main_candidates(opt_path(*resource), opt_path(*cwd)),
{
    let mut v: Vec<FsPath> = Vec::new();
    match resource {
        Some(r) => push_path(&mut v, strix_main_under(r)),
        None => {},
    }
    let ghost after_resource = path_views(v@);
    match cwd {
        Some(c) => {
            let in_tauri = ends_with_name(c, "src-tauri");
            if in_tauri {
                push_path(&mut v, strix_main_under(c));
            }
            push_path(&mut v, strix_main_under(c));
            if in_tauri {
                match parent_of(c) {
                    Some(p) => push_path(&mut v, strix_main_under(&p)),
                    None => {},
                }
            }
            push_strix_upward(&mut v, c, SEARCH_LEVELS);
        },
        None => {},
    }
    proof {
        assert(path_views(v@) =~= strix_main_candidates(opt_path(*resource), opt_path(*cwd)));
    }
    v
}

/// What is reported when the scanner's entry script is found nowhere.
pub open spec fn strix_missing_message() -> Seq<char> {
    "Strix 主程序未找到，请确保 strix-0.4.0 目录存在于 src-tauri 或项目根目录"@
}

/// The scanner's entry script: the first candidate that exists
/// (`exists[i]` answers for candidate `i`), or the error that none does.
pub fn find_strix_main(candidates: &Vec<FsPath>, exists: &Vec<bool>) -> (res: Result<
    FsPath,
    String,
>)
    ensures
        res is Err <==> forall|i: int|
            0 <= i < candidates@.len() ==> !known_to_exist(exists@, i),
        res matches Ok(p) ==> exists|k: int|
            0 <= k < candidates@.len() && known_to_exist(exists@, k) && p@ == candidates@[k]@
                && forall|i: int| 0 <= i < k ==> !known_to_exist(exists@, i),
        res matches Err(m) ==> m@ == strix_missing_message(),
{
    match first_existing(candidates.len(), exists) {
        Some(k) => Ok(path_clone(&candidates[k])),
        None => Err(
            String::from_str(
                "Strix 主程序未找到，请确保 strix-0.4.0 目录存在于 src-tauri 或项目根目录",
            ),
        ),
    }
}

/// The directory above the one that holds the entry script's package: the
/// grandparent of the script.
pub open spec fn strix_root_of(script: PathView) -> Result<PathView, Seq<char>> {
    match parent(script) {
        None => Err("无法获取 Strix 目录"@),
        Some(d) => match parent(d) {
            None => Err("无法获取 Strix 根目录"@),
            Some(r) => Ok(r),
        },
    }
}

/// The grandparent of the entry script, or the error of the step that has
/// no parent.
pub fn strix_root(script: &FsPath) -> (res: Result<FsPath, String>)
    ensures
        match (res, strix_root_of(script@)) {
            (Ok(p), Ok(q)) => p@ == q,
            (Err(m), Err(n)) => m@ == n,
            _ => false,
        },
{
    match parent_of(script) {
        None => Err(String::from_str("无法获取 Strix 目录")),
        Some(d) => match parent_of(&d) {
            None => Err(String::from_str("无法获取 Strix 根目录")),
            Some(r) => Ok(r),
        },
    }
}

// ---------------------------------------------------------------------------
// The bundled Python interpreter
// ---------------------------------------------------------------------------

/// The interpreter's file name: `python.exe` on Windows, `python3` elsewhere.
pub open spec fn python_exe_name(windows: bool) -> Seq<char> {
    if windows {
        "python.exe"@
    } else {
        "python3"@
    }
}

/// `python-runtime/python/<interpreter>` under a directory.
pub open spec fn python_in(d: PathView, windows: bool) -> PathView {
    join(d, seq!["python-runtime"@, "python"@, python_exe_name(windows)])
}

/// The interpreter under `d`, then under each parent, `levels` directories
/// in all.
pub open spec fn python_upward(d: PathView, windows: bool, levels: nat) -> Seq<PathView>
    decreases levels,
{
    if levels == 0 {
        Seq::empty()
    } else {
        seq![python_in(d, windows)] + match parent(d) {
            Some(p) => python_upward(p, windows, (levels - 1) as nat),
            None => Seq::empty(),
        }
    }
}

/// Where the bundled interpreter is looked for, in order: in the resources,
/// in the working directory, in its parent when it is `src-tauri`, and up
/// from the working directory.
pub open spec fn python_candidates(
    resource: Option<PathView>,
    cwd: Option<PathView>,
    windows: bool,
) -> Seq<PathView> {
    let from_resource = match resource {
        Some(r) => seq![python_in(r, windows)],
        None => Seq::empty(),
    };
    let from_cwd = match cwd {
        Some(c) => seq![python_in(c, windows)] + (if ends_with(c, "src-tauri"@) && parent(
            c,
        ) is Some {
            seq![python_in(parent(c)->0, windows)]
        } else {
            Seq::empty()
        }) + python_upward(c, windows, SEARCH_LEVELS as nat),
        None => Seq::empty(),
    };
    from_resource + from_cwd
}

fn python_under(d: &FsPath, windows: bool) -> (res: FsPath)
    ensures
        res@ == python_in(d@, windows),
{
    let a = child(d, "python-runtime");
    let b = child(&a, "python");
    let r = if windows {
        child(&b, "python.exe")
    } else {
        child(&b, "python3")
    };
    proof {
        assert(r@.names =~= python_in(d@, windows).names);
    }
    r
}

fn push_python_upward(v: &mut Vec<FsPath>, d: &FsPath, windows: bool, levels: usize)
    ensures
        path_views(final(v)@) == path_views(old(v)@) + python_upward(d@, windows, levels as nat),
    decreases levels,
{
    let ghost before = path_views(v@);
    if levels == 0 {
        proof {
            assert(before + python_upward(d@, windows, 0) =~= before);
        }
        return ;
    }
    let a = python_under(d, windows);
    let ghost head = seq![a@];
    push_path(v, a);
    match parent_of(d) {
        Some(p) => {
            push_python_upward(v, &p, windows, levels - 1);
            proof {
                assert(python_upward(d@, windows, levels as nat) == head + python_upward(
                    p@,
                    windows,
                    (levels - 1) as nat,
                ));
                assert(path_views(v@) =~= before + python_upward(d@, windows, levels as nat));
            }
        },
        None => {
            proof {
                assert(python_upward(d@, windows, levels as nat) =~= head);
                assert(path_views(v@) =~= before + python_upward(d@, windows, levels as nat));
            }
        },
    }
}

/// Where the bundled interpreter is looked for, in order.
pub fn bundled_python_paths(resource: &Option<FsPath>, cwd: &Option<FsPath>, windows: bool) -> (res:
    Vec<FsPath>)
    ensures
        path_views(res@) == python_candidates(opt_path(*resource), opt_path(*cwd), windows),
{
    let mut v: Vec<FsPath> = Vec::new();
    match resource {
        Some(r) => push_path(&mut v, python_under(r, windows)),
        None => {},
    }
    match cwd {
        Some(c) => {
            push_path(&mut v, python_under(c, windows));
            if ends_with_name(c, "src-tauri") {
                match parent_of(c) {
                    Some(p) => push_path(&mut v, python_under(&p, windows)),
                    None => {},
                }
            }
            push_python_upward(&mut v, c, windows, SEARCH_LEVELS);
        },
        None => {},
    }
    proof {
        assert(path_views(v@) =~= python_candidates(opt_path(*resource), opt_path(*cwd), windows));
    }
    v
}

/// The bundled interpreter: the first candidate that exists, if any.
pub fn find_bundled_python(candidates: &Vec<FsPath>, exists: &Vec<bool>) -> (res: Option<FsPath>)
    ensures
        res is None <==> forall|i: int|
            0 <= i < candidates@.len() ==> !known_to_exist(exists@, i),
        res matches Some(p) ==> exists|k: int|
            0 <= k < candidates@.len() && known_to_exist(exists@, k) && p@ == candidates@[k]@
                && forall|i: int| 0 <= i < k ==> !known_to_exist(exists@, i),
{
    match first_existing(candidates.len(), exists) {
        Some(k) => Some(path_clone(&candidates[k])),
        None => None,
    }
}

/// The interpreter that runs the scanner: the bundled one (given as the
/// text of its path), else `python` when it answers, else `python3`.
pub open spec fn python_choice(bundled: Option<Seq<char>>, python_ok: bool, python3_ok: bool) -> Result<
    Seq<char>,
    Seq<char>,
> {
    match bundled {
        Some(p) => Ok(p),
        None => if python_ok {
            Ok("python"@)
        } else if python3_ok {
            Ok("python3"@)
        } else {
            Err(
                "未找到 Python 解释器。请运行 scripts/setup-python-runtime.ps1 打包 Python，或确保系统已安装 Python"@,
            )
        },
    }
}

/// The interpreter that runs the scanner. `python_ok` and `python3_ok` say
/// whether `python --version` and `python3 --version` could be run.
pub fn python_executable(bundled: Option<String>, python_ok: bool, python3_ok: bool) -> (res:
    Result<String, String>)
    ensures
        match (res, python_choice(crate::scan::opt_view(bundled), python_ok, python3_ok)) {
            (Ok(p), Ok(q)) => p@ == q,
            (Err(m), Err(n)) => m@ == n,
            _ => false,
        },
{
    match bundled {
        Some(p) => Ok(p),
        None => if python_ok {
            Ok(String::from_str("python"))
        } else if python3_ok {
            Ok(String::from_str("python3"))
        } else {
            Err(
                String::from_str(
                    "未找到 Python 解释器。请运行 scripts/setup-python-runtime.ps1 打包 Python，或确保系统已安装 Python",
                ),
            )
        },
    }
}

// ---------------------------------------------------------------------------
// The feed server's entry module
// ---------------------------------------------------------------------------

/// `.output/server/index.mjs` under a directory.
pub open spec fn server_output_in(d: PathView) -> PathView {
    join(d, seq![".output"@, "server"@, "index.mjs"@])
}

/// Where the feed server's entry module is looked for, in order: beside the
/// executable, beside its directory, in the resources (under `.output` and
/// directly), and two levels above the executable's directory.
pub open spec fn server_candidates(exe_dir: PathView, resource: Option<PathView>) -> Seq<PathView> {
    seq![server_output_in(exe_dir)] + match parent(exe_dir) {
        Some(p) => seq![server_output_in(p)],
        None => Seq::empty(),
    } + match resource {
        Some(r) => seq![server_output_in(r), join(r, seq!["server"@, "index.mjs"@])],
        None => Seq::empty(),
    } + match parent(exe_dir) {
        Some(p) => match parent(p) {
            Some(g) => seq![server_output_in(g)],
            None => Seq::empty(),
        },
        None => Seq::empty(),
    }
}

fn server_output_under(d: &FsPath) -> (res: FsPath)
    ensures
        res@ == server_output_in(d@),
{
    let a = child(d, ".output");
    let b = child(&a, "server");
    let r = child(&b, "index.mjs");
    proof {
        assert(r@.names =~= server_output_in(d@).names);
    }
    r
}

/// Where the feed server's entry module is looked for, in order.
pub fn server_index_paths(exe_dir: &FsPath, resource: &Option<FsPath>) -> (res: Vec<FsPath>)
    ensures
        path_views(res@) == server_candidates(exe_dir@, opt_path(*resource)),
{
    let mut v: Vec<FsPath> = Vec::new();
    push_path(&mut v, server_output_under(exe_dir));
    let up = parent_of(exe_dir);
    match &up {
        Some(p) => push_path(&mut v, server_output_under(p)),
        None => {},
    }
    match resource {
        Some(r) => {
            push_path(&mut v, server_output_under(r));
            let a = child(r, "server");
            let b = child(&a, "index.mjs");
            proof {
                assert(b@.names =~= join(r@, seq!["server"@, "index.mjs"@]).names);
            }
            push_path(&mut v, b);
        },
        None => {},
    }
    match &up {
        Some(p) => match parent_of(p) {
            Some(g) => push_path(&mut v, server_output_under(&g)),
            None => {},
        },
        None => {},
    }
    proof {
        assert(path_views(v@) =~= server_candidates(exe_dir@, opt_path(*resource)));
    }
    v
}

/// The directory of the executable, from the executable's path (or the
/// error of asking for it).
pub fn executable_dir(exe: Result<FsPath, String>) -> (res: Result<FsPath, String>)
    ensures
        match exe {
            Err(e) => res matches Err(m) && m@ == "Failed to get executable path: "@ + e@,
            Ok(p) => match parent(p@) {
                Some(d) => res matches Ok(q) && q@ == d,
                None => res matches Err(m) && m@ == "Failed to get executable directory"@,
            },
        },
{
    match exe {
        Err(e) => {
            let mut m = String::from_str("Failed to get executable path: ");
            m.append(e.as_str());
            Err(m)
        },
        Ok(p) => match parent_of(&p) {
            Some(d) => Ok(d),
            None => Err(String::from_str("Failed to get executable directory")),
        },
    }
}

/// The feed server's entry module and its directory: the first candidate
/// that exists, or `None` when none does.
pub fn locate_server(candidates: &Vec<FsPath>, exists: &Vec<bool>) -> (res: Option<
    (FsPath, FsPath),
>)
    requires
        forall|i: int| 0 <= i < candidates@.len() ==> (#[trigger] candidates@[i])@.names.len() > 0,
    ensures
        res is None <==> forall|i: int|
            0 <= i < candidates@.len() ==> !known_to_exist(exists@, i),
        res matches Some((dir, index)) ==> exists|k: int|
            0 <= k < candidates@.len() && known_to_exist(exists@, k) && index@ == candidates@[k]@
                && parent(index@) == Some(dir@) && forall|i: int|
                0 <= i < k ==> !known_to_exist(exists@, i),
{
    match first_existing(candidates.len(), exists) {
        Some(k) => {
            let index = path_clone(&candidates[k]);
            assert(index@.names.len() > 0);
            match parent_of(&index) {
                Some(dir) => Some((dir, index)),
                None => None,
            }
        },
        None => None,
    }
}

/// What is reported when the feed server's entry module is found nowhere;
/// `tried` holds the candidates as the error lists them.
pub open spec fn server_missing_message(tried: Seq<Seq<char>>) -> Seq<char> {
    "Server file index.mjs not found. Tried paths:\n"@ + crate::text::join(
        tried.map_values(|p: Seq<char>| "  - "@ + p),
        "\n"@,
    )
}

/// The error for a feed server that was found nowhere.
pub fn server_missing(tried: &Vec<String>) -> (res: String)
    ensures
        res@ == server_missing_message(string_views(tried@)),
{
    let mut lines: Vec<String> = Vec::new();
    let mut i: usize = 0;
    while i < tried.len()
        invariant
            i <= tried@.len(),
            string_views(lines@) == string_views(tried@).take(i as int).map_values(
                |p: Seq<char>| "  - "@ + p,
            ),
        decreases tried@.len() - i,
    {
        let mut l = String::from_str("  - ");
        l.append(tried[i].as_str());
        let ghost old = lines@;
        lines.push(l);
        proof {
            assert(string_views(lines@) =~= string_views(old).push(l@));
            assert(string_views(tried@).take(i + 1) =~= string_views(tried@).take(i as int).push(
                tried@[i as int]@,
            ));
            assert(string_views(lines@) =~= string_views(tried@).take(i + 1).map_values(
                |p: Seq<char>| "  - "@ + p,
            ));
        }
        i = i + 1;
    }
    proof {
        assert(string_views(tried@).take(tried@.len() as int) =~= string_views(tried@));
    }
    let mut m = String::from_str("Server file index.mjs not found. Tried paths:\n");
    let body = crate::text::join_strings(&lines, "\n");
    m.append(body.as_str());
    m
}

// ---------------------------------------------------------------------------
// The workspace and the database
// ---------------------------------------------------------------------------

/// The scan workspace: `workspace` in the application's data directory, or
/// the error of asking for that directory.
pub fn workspace_dir(app_data: Result<FsPath, String>) -> (res: Result<FsPath, String>)
    ensures
        match app_data {
            Ok(d) => res matches Ok(w) && w@ == join(d@, seq!["workspace"@]),
            Err(e) => res matches Err(m) && m@ == "无法获取应用数据目录: "@ + e@,
        },
{
    match app_data {
        Ok(d) => Ok(child(&d, "workspace")),
        Err(e) => {
            let mut m = String::from_str("无法获取应用数据目录: ");
            m.append(e.as_str());
            Err(m)
        },
    }
}

/// The feed reader's database file in the application's data directory.
pub fn db_path(app_data: &FsPath) -> (res: FsPath)
    ensures
        res@ == join(app_data@, seq!["rss-reader.db"@]),
{
    child(app_data, "rss-reader.db")
}

} // verus!

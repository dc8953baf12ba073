//! Guessing how to run a local project or script, so that the user points
//! at a path instead of typing a command line, and naming the folder an
//! imported script is copied to.
use vstd::prelude::*;

use crate::paths;
use crate::text;
use crate::text::views;

verus! {

/// How Mosaic would run a picked path.
#[derive(Debug, Clone)]
pub struct EntryGuess {
    pub kind: String,
    pub command: String,
    pub args: Vec<String>,
    pub cwd: String,
    pub nickname: String,
    pub note: String,
    pub output_dir: String,
}

pub struct GuessView {
    pub kind: Seq<char>,
    pub command: Seq<char>,
    pub args: Seq<Seq<char>>,
    pub cwd: Seq<char>,
    pub nickname: Seq<char>,
    pub note: Seq<char>,
    pub output_dir: Seq<char>,
}

impl View for EntryGuess {
    type V = GuessView;

    open spec fn view(&self) -> GuessView {
        GuessView {
            kind: self.kind@,
            command: self.command@,
            args: views(self.args@),
            cwd: self.cwd@,
            nickname: self.nickname@,
            note: self.note@,
            output_dir: self.output_dir@,
        }
    }
}

pub open spec fn guess_view(r: Result<EntryGuess, String>) -> Result<GuessView, Seq<char>> {
    match r {
        Ok(g) => Ok(g@),
        Err(e) => Err(e@),
    }
}

// ---------------------------------------------------------------------------
// Output directories
// ---------------------------------------------------------------------------

/// The sub-directories, in order of preference, that usually hold a
/// project's products.
pub fn output_dir_names() -> (res: Vec<&'static str>)
    ensures
        res@.len() == 5,
        res@[0]@ == "downloads"@,
        res@[1]@ == "output"@,
        res@[2]@ == "out"@,
        res@[3]@ == "results"@,
        res@[4]@ == "data"@,
{
    vec!["downloads", "output", "out", "results", "data"]
}

pub open spec fn first_dir(candidates: Seq<(String, bool)>) -> Seq<char>
    decreases candidates.len(),
{
    if candidates.len() == 0 {
        Seq::empty()
    } else if candidates[0].1 {
        candidates[0].0@
    } else {
        first_dir(candidates.drop_first())
    }
}

/// The first candidate (its path, whether it is a directory) that is a
/// directory, or empty.
pub fn detect_output_dir(candidates: &Vec<(String, bool)>) -> (res: String)
    ensures
        res@ == first_dir(candidates@),
{
    let mut i: usize = 0;
    assert(candidates@.skip(0) =~= candidates@);
    while i < candidates.len()
        invariant
            i <= candidates@.len(),
            first_dir(candidates@) == first_dir(candidates@.skip(i as int)),
        decreases candidates.len() - i,
    {
        assert(candidates@.skip(i as int)[0] == candidates@[i as int]);
        assert(candidates@.skip(i as int).drop_first() =~= candidates@.skip(i + 1));
        if candidates[i].1 {
            return text::copy_string(&candidates[i].0);
        }
        i += 1;
    }
    String::new()
}

// ---------------------------------------------------------------------------
// Script entries
// ---------------------------------------------------------------------------

/// A file's extension, lower-cased (empty where it has none).
pub open spec fn ext_of(path: Seq<char>) -> Seq<char> {
    match paths::path_extension(path) {
        Some(e) => text::unicode_lowercase(e),
        None => Seq::empty(),
    }
}

pub open spec fn launcher_words() -> Seq<Seq<char>> {
    seq!["fetch"@, "run"@, "main"@, "start"@, "collect"@, "采集"@]
}

/// A file whose lower-cased stem mentions fetch, run, main, start, collect
/// or 采集 looks like the author's launcher.
pub open spec fn looks_like_launcher(path: Seq<char>) -> bool {
    let stem = text::unicode_lowercase(
        match paths::path_file_stem(path) {
            Some(s) => s,
            None => Seq::empty(),
        },
    );
    exists|i: int| 0 <= i < launcher_words().len() && text::contains(stem, #[trigger] launcher_words()[i])
}

/// The files of one kind (extension in `exts`), in listing order.
pub open spec fn of_kind(files: Seq<Seq<char>>, exts: Seq<Seq<char>>) -> Seq<Seq<char>> {
    files.filter(|f: Seq<char>| exts.contains(ext_of(f)))
}

pub open spec fn first_launcher(v: Seq<Seq<char>>) -> Option<Seq<char>>
    decreases v.len(),
{
    if v.len() == 0 {
        None
    } else if looks_like_launcher(v[0]) {
        Some(v[0])
    } else {
        first_launcher(v.drop_first())
    }
}

/// The pick among files of one kind: the first launcher-like one, else
/// (unless only launchers count) the first one.
pub open spec fn pick(v: Seq<Seq<char>>, launcher_only: bool) -> Option<Seq<char>> {
    match first_launcher(v) {
        Some(f) => Some(f),
        None => if launcher_only || v.len() == 0 {
            None
        } else {
            Some(v[0])
        },
    }
}

/// A PowerShell script (preferred), a batch file or a `.pyw` script,
/// with the command line that runs it and a note.
pub open spec fn script_entry_spec(files: Seq<Seq<char>>, launcher_only: bool) -> Option<(Seq<char>, Seq<Seq<char>>, Seq<char>)> {
    match pick(of_kind(files, seq!["ps1"@]), launcher_only) {
        Some(f) => Some(
            (
                "powershell"@,
                seq!["-NoProfile"@, "-ExecutionPolicy"@, "Bypass"@, "-File"@, f],
                "PowerShell 脚本"@,
            ),
        ),
        None => match pick(of_kind(files, seq!["bat"@, "cmd"@]), launcher_only) {
            Some(f) => Some((f, Seq::empty(), "批处理脚本"@)),
            None => match pick(of_kind(files, seq!["pyw"@]), launcher_only) {
                Some(f) => Some(("pythonw"@, seq![f], "Python GUI"@)),
                None => None,
            },
        },
    }
}

fn lower_ext(path: &str) -> (res: Vec<char>)
    ensures
        res@ == ext_of(path@),
{
    match paths::extension(path) {
        Some(e) => text::chars_of(text::to_lowercase(e.as_str()).as_str()),
        None => Vec::new(),
    }
}

fn launcher_exec(path: &str) -> (res: bool)
    ensures
        res == looks_like_launcher(path@),
{
    let stem = match paths::file_stem(path) {
        Some(s) => s,
        None => String::new(),
    };
    let lower = text::chars_of(text::to_lowercase(stem.as_str()).as_str());
    let words = vec!["fetch", "run", "main", "start", "collect", "采集"];
    proof {
        reveal_strlit("fetch");
        reveal_strlit("run");
        reveal_strlit("main");
        reveal_strlit("start");
        reveal_strlit("collect");
        reveal_strlit("采集");
        assert(words@.len() == launcher_words().len());
        assert forall|i: int| 0 <= i < words@.len() implies words@[i]@ == launcher_words()[i] by {}
    }
    let mut i: usize = 0;
    while i < words.len()
        invariant
            i <= words@.len(),
            words@.len() == launcher_words().len(),
            forall|k: int| 0 <= k < words@.len() ==> words@[k]@ == launcher_words()[k],
            forall|k: int| 0 <= k < i ==> !text::contains(lower@, #[trigger] launcher_words()[k]),
            lower@ == text::unicode_lowercase(
                match paths::path_file_stem(path@) {
                    Some(s) => s,
                    None => Seq::<char>::empty(),
                },
            ),
        decreases words.len() - i,
    {
        if text::contains_str(&lower, words[i]) {
            assert(text::contains(lower@, launcher_words()[i as int]));
            return true;
        }
        i += 1;
    }
    false
}

fn pick_exec(v: &Vec<String>, launcher_only: bool) -> (res: Option<String>)
    ensures
        match res {
            Some(f) => pick(views(v@), launcher_only) == Some(f@),
            None => pick(views(v@), launcher_only) is None,
        },
{
    let ghost vs = views(v@);
    let mut i: usize = 0;
    assert(vs.skip(0) =~= vs);
    while i < v.len()
        invariant
            i <= v@.len(),
            vs == views(v@),
            first_launcher(vs) == first_launcher(vs.skip(i as int)),
        decreases v.len() - i,
    {
        assert(vs.skip(i as int)[0] == v@[i as int]@);
        assert(vs.skip(i as int).drop_first() =~= vs.skip(i + 1));
        if launcher_exec(v[i].as_str()) {
            return Some(text::copy_string(&v[i]));
        }
        i += 1;
    }
    if launcher_only || v.len() == 0 {
        None
    } else {
        Some(text::copy_string(&v[0]))
    }
}

fn ext_in(e: &Vec<char>, exts: &Vec<&str>) -> (res: bool)
    ensures
        res == exists|i: int| 0 <= i < exts@.len() && #[trigger] exts@[i]@ == e@,
{
    let mut i: usize = 0;
    while i < exts.len()
        invariant
            i <= exts@.len(),
            forall|k: int| 0 <= k < i ==> #[trigger] exts@[k]@ != e@,
        decreases exts.len() - i,
    {
        if text::eq_str(e, exts[i]) {
            return true;
        }
        i += 1;
    }
    false
}

fn select_kind(files: &Vec<String>, exts: &Vec<&str>, spec_exts: Ghost<Seq<Seq<char>>>) -> (res: Vec<String>)
    requires
        exts@.len() == spec_exts@.len(),
        forall|i: int| 0 <= i < exts@.len() ==> exts@[i]@ == spec_exts@[i],
    ensures
        views(res@) == of_kind(views(files@), spec_exts@),
{
    let ghost keep = |f: Seq<char>| spec_exts@.contains(ext_of(f));
    let ghost fs = views(files@);
    let mut out: Vec<String> = Vec::new();
    let mut i: usize = 0;
    proof {
        reveal(Seq::filter);
        assert(fs.take(0) =~= Seq::<Seq<char>>::empty());
    }
    while i < files.len()
        invariant
            i <= files@.len(),
            fs == views(files@),
            keep == |f: Seq<char>| spec_exts@.contains(ext_of(f)),
            exts@.len() == spec_exts@.len(),
            forall|k: int| 0 <= k < exts@.len() ==> exts@[k]@ == spec_exts@[k],
            views(out@) == fs.take(i as int).filter(keep),
        decreases files.len() - i,
    {
        let e = lower_ext(files[i].as_str());
        proof {
            assert(fs.take(i + 1) =~= fs.take(i as int).push(fs[i as int]));
            text::lemma_filter_push(fs.take(i as int), keep, fs[i as int]);
        }
        let hit = ext_in(&e, exts);
        proof {
            if hit {
                let k = choose|k: int| 0 <= k < exts@.len() && #[trigger] exts@[k]@ == e@;
                assert(spec_exts@[k] == e@);
            }
            if spec_exts@.contains(e@) {
                let k = choose|k: int| 0 <= k < spec_exts@.len() && spec_exts@[k] == e@;
                assert(exts@[k]@ == e@);
            }
        }
        if hit {
            let ghost before = out@;
            out.push(text::copy_string(&files[i]));
            assert(views(out@) =~= views(before).push(fs[i as int]));
        }
        i += 1;
    }
    assert(fs.take(fs.len() as int) =~= fs);
    out
}

/// Finds a PowerShell, batch or `.pyw` entry script among a directory's
/// files (given in listing order). With `launcher_only`, only a file whose
/// name looks like a launcher counts; otherwise the first script of the
/// preferred kind does too.
pub fn find_script_entry(files: &Vec<String>, launcher_only: bool) -> (res: Option<(String, Vec<String>, String)>)
    ensures
        match res {
            Some((c, a, n)) => script_entry_spec(views(files@), launcher_only) == Some((c@, views(a@), n@)),
            None => script_entry_spec(views(files@), launcher_only) is None,
        },
{
    let ps1_exts = vec!["ps1"];
    let bat_exts = vec!["bat", "cmd"];
    let pyw_exts = vec!["pyw"];
    proof {
        reveal_strlit("ps1");
        reveal_strlit("bat");
        reveal_strlit("cmd");
        reveal_strlit("pyw");
    }
    let ghost ps1_spec = seq!["ps1"@];
    let ps1 = select_kind(files, &ps1_exts, Ghost(ps1_spec));
    match pick_exec(&ps1, launcher_only) {
        Some(f) => {
            let args = vec![
                text::string_from("-NoProfile"),
                text::string_from("-ExecutionPolicy"),
                text::string_from("Bypass"),
                text::string_from("-File"),
                f,
            ];
            assert(views(args@) =~= seq!["-NoProfile"@, "-ExecutionPolicy"@, "Bypass"@, "-File"@, args@[4]@]);
            return Some((text::string_from("powershell"), args, text::string_from("PowerShell 脚本")));
        },
        None => {},
    }
    let ghost bat_spec = seq!["bat"@, "cmd"@];
    let bat = select_kind(files, &bat_exts, Ghost(bat_spec));
    match pick_exec(&bat, launcher_only) {
        Some(f) => {
            let args: Vec<String> = Vec::new();
            assert(views(args@) =~= Seq::<Seq<char>>::empty());
            return Some((f, args, text::string_from("批处理脚本")));
        },
        None => {},
    }
    let ghost pyw_spec = seq!["pyw"@];
    let pyw = select_kind(files, &pyw_exts, Ghost(pyw_spec));
    match pick_exec(&pyw, launcher_only) {
        Some(f) => {
            let args = vec![f];
            assert(views(args@) =~= seq![args@[0]@]);
            Some((text::string_from("pythonw"), args, text::string_from("Python GUI")))
        },
        None => None,
    }
}

// ---------------------------------------------------------------------------
// Inspecting a picked path
// ---------------------------------------------------------------------------

/// What the file system says about a picked directory.
#[derive(Debug, Clone)]
pub struct ProjectFacts {
    /// The directory's path, as displayed.
    pub path: String,
    /// The detected output directory, or empty.
    pub output_dir: String,
    /// The regular files directly inside, in listing order.
    pub files: Vec<String>,
    pub has_package_json: bool,
    pub has_pnpm_lock: bool,
    pub has_yarn_lock: bool,
    /// Whether `package.json` reads as JSON with a `scripts.start` member.
    pub has_start_script: bool,
    pub has_main_py: bool,
    pub has_app_py: bool,
    pub has_pyproject: bool,
    /// The project's `.venv/Scripts/python.exe`, where it exists.
    pub venv_python: Option<String>,
    pub has_cargo_toml: bool,
}

/// What was picked.
#[derive(Debug, Clone)]
pub enum Target {
    Missing,
    Dir(ProjectFacts),
    /// A file, with its parent directory (as displayed) and the output
    /// directory detected next to it.
    File { path: String, parent: Option<String>, output_dir: String },
}

pub open spec fn gv(
    kind: Seq<char>,
    command: Seq<char>,
    args: Seq<Seq<char>>,
    cwd: Seq<char>,
    nickname: Seq<char>,
    note: Seq<char>,
    output_dir: Seq<char>,
) -> GuessView {
    GuessView { kind, command, args, cwd, nickname, note, output_dir }
}

/// The guess for a directory: a hand-written launcher first, then a Node,
/// Python or Rust project, then any script.
pub open spec fn inspect_dir_spec(f: ProjectFacts) -> Result<GuessView, Seq<char>> {
    let name = match paths::path_file_name(f.path@) {
        Some(n) => n,
        None => "task"@,
    };
    let cwd = f.path@;
    let out = f.output_dir@;
    match script_entry_spec(views(f.files@), true) {
        Some((c, a, n)) => Ok(gv("script-project"@, c, a, cwd, name, n, out)),
        None => if f.has_package_json {
            let pm = if f.has_pnpm_lock {
                "pnpm"@
            } else if f.has_yarn_lock {
                "yarn"@
            } else {
                "npm"@
            };
            Ok(gv(
                "node-project"@,
                pm,
                seq!["run"@, if f.has_start_script { "start"@ } else { "dev"@ }],
                cwd,
                name,
                "Node 项目（"@ + pm + "）"@,
                out,
            ))
        } else if f.has_main_py || f.has_app_py || f.has_pyproject {
            let py = match f.venv_python {
                Some(p) => p@,
                None => "python"@,
            };
            let args = if f.has_main_py {
                seq!["main.py"@]
            } else if f.has_app_py {
                seq!["app.py"@]
            } else {
                Seq::empty()
            };
            Ok(gv("python-project"@, py, args, cwd, name, "Python 项目"@, out))
        } else if f.has_cargo_toml {
            Ok(gv("rust-project"@, "cargo"@, seq!["run"@], cwd, name, "Rust 项目"@, out))
        } else {
            match script_entry_spec(views(f.files@), false) {
                Some((c, a, n)) => Ok(gv("script-project"@, c, a, cwd, name, n, out)),
                None => Err("目录里没识别到入口（package.json / main.py / Cargo.toml / *.ps1 / *.bat 等）"@),
            }
        },
    }
}

/// How a single script file is run, by its lower-cased extension.
pub open spec fn file_command(ext: Seq<char>, file: Seq<char>) -> Option<(Seq<char>, Seq<Seq<char>>)> {
    if ext == "py"@ {
        Some(("python"@, seq![file]))
    } else if ext == "js"@ || ext == "mjs"@ || ext == "cjs"@ {
        Some(("node"@, seq![file]))
    } else if ext == "ts"@ {
        Some(("npx"@, seq!["tsx"@, file]))
    } else if ext == "ps1"@ {
        Some(("powershell"@, seq!["-NoProfile"@, "-ExecutionPolicy"@, "Bypass"@, "-File"@, file]))
    } else if ext == "pyw"@ {
        Some(("pythonw"@, seq![file]))
    } else if ext == "sh"@ {
        Some(("bash"@, seq![file]))
    } else if ext == "rb"@ {
        Some(("ruby"@, seq![file]))
    } else if ext == "exe"@ || ext == "bat"@ || ext == "cmd"@ {
        Some((file, Seq::empty()))
    } else {
        None
    }
}

pub open spec fn inspect_file_spec(path: Seq<char>, parent: Option<Seq<char>>, output_dir: Seq<char>) -> Result<GuessView, Seq<char>> {
    let ext = ext_of(path);
    let cwd = match parent {
        Some(p) => p,
        None => Seq::empty(),
    };
    let name = match paths::path_file_stem(path) {
        Some(s) => s,
        None => "task"@,
    };
    match file_command(ext, path) {
        Some((c, a)) => Ok(gv("script"@, c, a, cwd, name, "."@ + ext + " 脚本"@, output_dir)),
        None => Err("不认识的脚本类型：."@ + ext),
    }
}

pub open spec fn inspect_spec(t: Target) -> Result<GuessView, Seq<char>> {
    match t {
        Target::Missing => Err("路径不存在"@),
        Target::Dir(f) => inspect_dir_spec(f),
        Target::File { path, parent, output_dir } => inspect_file_spec(
            path@,
            crate::urls::ov(parent),
            output_dir@,
        ),
    }
}

/// A directory guess that runs `command` with `args` in the directory.
pub open spec fn dir_runs_as(
    r: Result<GuessView, Seq<char>>,
    kind: Seq<char>,
    command: Seq<char>,
    args: Seq<Seq<char>>,
    f: ProjectFacts,
) -> bool {
    r matches Ok(g) && g.kind == kind && g.command == command && g.args == args && g.cwd == f.path@
        && g.output_dir == f.output_dir@ && g.nickname == (match paths::path_file_name(f.path@) {
        Some(n) => n,
        None => "task"@,
    })
}

/// How a picked directory is run: a hand-written launcher script wins; then
/// a Node project (`package.json`) through pnpm, yarn or npm by its lock
/// file, with `run start` where it has a start script and `run dev`
/// otherwise; then a Python project through its virtual environment's
/// python or `python`, with `main.py` or `app.py`; then a Rust project with
/// `cargo run`; then any script; otherwise it is refused. A missing path is
/// refused too.
pub proof fn lemma_dir_guess(f: ProjectFacts)
    ensures
        inspect_spec(Target::Missing) == Err::<GuessView, Seq<char>>("路径不存在"@),
        script_entry_spec(views(f.files@), true) matches Some((c, a, n)) ==> dir_runs_as(
            inspect_spec(Target::Dir(f)),
            "script-project"@,
            c,
            a,
            f,
        ),
        script_entry_spec(views(f.files@), true) is None && f.has_package_json ==> dir_runs_as(
            inspect_spec(Target::Dir(f)),
            "node-project"@,
            if f.has_pnpm_lock {
                "pnpm"@
            } else if f.has_yarn_lock {
                "yarn"@
            } else {
                "npm"@
            },
            seq!["run"@, if f.has_start_script { "start"@ } else { "dev"@ }],
            f,
        ),
        script_entry_spec(views(f.files@), true) is None && !f.has_package_json && (f.has_main_py
            || f.has_app_py || f.has_pyproject) ==> dir_runs_as(
            inspect_spec(Target::Dir(f)),
            "python-project"@,
            match f.venv_python {
                Some(p) => p@,
                None => "python"@,
            },
            if f.has_main_py {
                seq!["main.py"@]
            } else if f.has_app_py {
                seq!["app.py"@]
            } else {
                Seq::empty()
            },
            f,
        ),
        script_entry_spec(views(f.files@), true) is None && !f.has_package_json && !(f.has_main_py
            || f.has_app_py || f.has_pyproject) && f.has_cargo_toml ==> dir_runs_as(
            inspect_spec(Target::Dir(f)),
            "rust-project"@,
            "cargo"@,
            seq!["run"@],
            f,
        ),
        script_entry_spec(views(f.files@), true) is None && !f.has_package_json && !(f.has_main_py
            || f.has_app_py || f.has_pyproject) && !f.has_cargo_toml ==> match script_entry_spec(
            views(f.files@),
            false,
        ) {
            Some((c, a, n)) => dir_runs_as(inspect_spec(Target::Dir(f)), "script-project"@, c, a, f),
            None => inspect_spec(Target::Dir(f)) is Err,
        },
{
}

/// The guess for a script file: `command` with `args`, a `script` in the
/// file's directory, noted by its extension.
pub open spec fn runs_as(
    r: Result<GuessView, Seq<char>>,
    command: Seq<char>,
    args: Seq<Seq<char>>,
    path: Seq<char>,
    parent: Option<String>,
    output_dir: Seq<char>,
) -> bool {
    r matches Ok(g) && g.command == command && g.args == args && g.kind == "script"@ && g.note == "."@
        + ext_of(path) + " 脚本"@ && g.cwd == (match parent {
        Some(d) => d@,
        None => Seq::<char>::empty(),
    }) && g.output_dir == output_dir && g.nickname == (match paths::path_file_stem(path) {
        Some(stem) => stem,
        None => "task"@,
    })
}

pub open spec fn known_script_ext(ext: Seq<char>) -> bool {
    ext == "js"@ || ext == "mjs"@ || ext == "cjs"@ || ext == "py"@ || ext == "pyw"@ || ext == "ts"@
        || ext == "ps1"@ || ext == "sh"@ || ext == "rb"@ || ext == "exe"@ || ext == "bat"@ || ext
        == "cmd"@
}

/// How a picked script file is run, by its lower-cased extension: `.py`
/// by python, `.js`/`.mjs`/`.cjs` by node, `.ts` by `npx tsx`, `.ps1` by
/// PowerShell with `-File`, `.pyw` by pythonw, `.sh` by bash, `.rb` by ruby,
/// each with the file as argument; `.exe`/`.bat`/`.cmd` run themselves; any
/// other extension is refused.
pub proof fn lemma_file_guess(path: String, parent: Option<String>, output_dir: String)
    ensures
        (ext_of(path@) == "js"@ || ext_of(path@) == "mjs"@ || ext_of(path@) == "cjs"@) ==> runs_as(
            inspect_spec(Target::File { path, parent, output_dir }),
            "node"@,
            seq![path@],
            path@,
            parent,
            output_dir@,
        ),
        ext_of(path@) == "py"@ ==> runs_as(
            inspect_spec(Target::File { path, parent, output_dir }),
            "python"@,
            seq![path@],
            path@,
            parent,
            output_dir@,
        ),
        ext_of(path@) == "pyw"@ ==> runs_as(
            inspect_spec(Target::File { path, parent, output_dir }),
            "pythonw"@,
            seq![path@],
            path@,
            parent,
            output_dir@,
        ),
        ext_of(path@) == "ts"@ ==> runs_as(
            inspect_spec(Target::File { path, parent, output_dir }),
            "npx"@,
            seq!["tsx"@, path@],
            path@,
            parent,
            output_dir@,
        ),
        ext_of(path@) == "ps1"@ ==> runs_as(
            inspect_spec(Target::File { path, parent, output_dir }),
            "powershell"@,
            seq!["-NoProfile"@, "-ExecutionPolicy"@, "Bypass"@, "-File"@, path@],
            path@,
            parent,
            output_dir@,
        ),
        ext_of(path@) == "sh"@ ==> runs_as(
            inspect_spec(Target::File { path, parent, output_dir }),
            "bash"@,
            seq![path@],
            path@,
            parent,
            output_dir@,
        ),
        ext_of(path@) == "rb"@ ==> runs_as(
            inspect_spec(Target::File { path, parent, output_dir }),
            "ruby"@,
            seq![path@],
            path@,
            parent,
            output_dir@,
        ),
        (ext_of(path@) == "exe"@ || ext_of(path@) == "bat"@ || ext_of(path@) == "cmd"@) ==> runs_as(
            inspect_spec(Target::File { path, parent, output_dir }),
            path@,
            Seq::empty(),
            path@,
            parent,
            output_dir@,
        ),
        !known_script_ext(ext_of(path@)) ==> inspect_spec(Target::File { path, parent, output_dir })
            == Err::<GuessView, Seq<char>>("不认识的脚本类型：."@ + ext_of(path@)),
{
    reveal_strlit("js");
    reveal_strlit("mjs");
    reveal_strlit("cjs");
    reveal_strlit("py");
    reveal_strlit("pyw");
    reveal_strlit("ts");
    reveal_strlit("ps1");
    reveal_strlit("sh");
    reveal_strlit("rb");
    reveal_strlit("exe");
    reveal_strlit("bat");
    reveal_strlit("cmd");
    assert("js"@[0] == 'j' && "py"@[0] == 'p' && "ts"@[0] == 't' && "sh"@[0] == 's' && "rb"@[0] == 'r');
    assert("mjs"@[0] == 'm' && "cjs"@[0] == 'c' && "ps1"@[0] == 'p' && "pyw"@[0] == 'p');
    assert("exe"@[0] == 'e' && "bat"@[0] == 'b' && "cmd"@[0] == 'c');
    assert("cjs"@[1] == 'j' && "cmd"@[1] == 'm' && "ps1"@[1] == 's' && "pyw"@[1] == 'y');
    assert("js"@.len() == 2 && "py"@.len() == 2 && "ts"@.len() == 2 && "sh"@.len() == 2 && "rb"@.len() == 2);
    assert("mjs"@.len() == 3 && "cjs"@.len() == 3 && "ps1"@.len() == 3 && "pyw"@.len() == 3);
    assert("exe"@.len() == 3 && "bat"@.len() == 3 && "cmd"@.len() == 3);
}

fn guess(
    kind: &str,
    command: String,
    args: Vec<String>,
    cwd: String,
    nickname: String,
    note: String,
    output_dir: String,
) -> (g: EntryGuess)
    ensures
        g@ == gv(kind@, command@, views(args@), cwd@, nickname@, note@, output_dir@),
{
    EntryGuess { kind: text::string_from(kind), command, args, cwd, nickname, note, output_dir }
}

fn inspect_dir(f: &ProjectFacts) -> (res: Result<EntryGuess, String>)
    ensures
        guess_view(res) == inspect_dir_spec(*f),
{
    let name = match paths::file_name(f.path.as_str()) {
        Some(n) => n,
        None => text::string_from("task"),
    };
    let cwd = text::copy_string(&f.path);
    let out = text::copy_string(&f.output_dir);
    match find_script_entry(&f.files, true) {
        Some((c, a, n)) => {
            return Ok(guess("script-project", c, a, cwd, name, n, out));
        },
        None => {},
    }
    if f.has_package_json {
        let pm = if f.has_pnpm_lock {
            "pnpm"
        } else if f.has_yarn_lock {
            "yarn"
        } else {
            "npm"
        };
        let args = vec![
            text::string_from("run"),
            text::string_from(
                if f.has_start_script {
                    "start"
                } else {
                    "dev"
                },
            ),
        ];
        let mut note = text::chars_of("Node 项目（");
        text::append_str(&mut note, pm);
        text::append_str(&mut note, "）");
        assert(views(args@) =~= seq!["run"@, if f.has_start_script { "start"@ } else { "dev"@ }]);
        return Ok(guess("node-project", text::string_from(pm), args, cwd, name, text::string_of(&note), out));
    }
    if f.has_main_py || f.has_app_py || f.has_pyproject {
        let py = match &f.venv_python {
            Some(p) => text::copy_string(p),
            None => text::string_from("python"),
        };
        let args: Vec<String> = if f.has_main_py {
            vec![text::string_from("main.py")]
        } else if f.has_app_py {
            vec![text::string_from("app.py")]
        } else {
            Vec::new()
        };
        assert(views(args@) =~= (if f.has_main_py {
            seq!["main.py"@]
        } else if f.has_app_py {
            seq!["app.py"@]
        } else {
            Seq::<Seq<char>>::empty()
        }));
        return Ok(guess("python-project", py, args, cwd, name, text::string_from("Python 项目"), out));
    }
    if f.has_cargo_toml {
        let args = vec![text::string_from("run")];
        assert(views(args@) =~= seq!["run"@]);
        return Ok(guess("rust-project", text::string_from("cargo"), args, cwd, name, text::string_from("Rust 项目"), out));
    }
    match find_script_entry(&f.files, false) {
        Some((c, a, n)) => Ok(guess("script-project", c, a, cwd, name, n, out)),
        None => Err(text::string_from("目录里没识别到入口（package.json / main.py / Cargo.toml / *.ps1 / *.bat 等）")),
    }
}

fn inspect_file(path: &str, parent: &Option<String>, output_dir: &String) -> (res: Result<EntryGuess, String>)
    ensures
        guess_view(res) == inspect_file_spec(path@, crate::urls::ov(*parent), output_dir@),
{
    let ext = lower_ext(path);
    let cwd = match parent {
        Some(p) => text::copy_string(p),
        None => String::new(),
    };
    let name = match paths::file_stem(path) {
        Some(s) => s,
        None => text::string_from("task"),
    };
    let file = text::string_from(path);
    let (command, args): (String, Vec<String>) = if text::eq_str(&ext, "py") {
        (text::string_from("python"), vec![file])
    } else if text::eq_str(&ext, "js") || text::eq_str(&ext, "mjs") || text::eq_str(&ext, "cjs") {
        (text::string_from("node"), vec![file])
    } else if text::eq_str(&ext, "ts") {
        (text::string_from("npx"), vec![text::string_from("tsx"), file])
    } else if text::eq_str(&ext, "ps1") {
        (
            text::string_from("powershell"),
            vec![
                text::string_from("-NoProfile"),
                text::string_from("-ExecutionPolicy"),
                text::string_from("Bypass"),
                text::string_from("-File"),
                file,
            ],
        )
    } else if text::eq_str(&ext, "pyw") {
        (text::string_from("pythonw"), vec![file])
    } else if text::eq_str(&ext, "sh") {
        (text::string_from("bash"), vec![file])
    } else if text::eq_str(&ext, "rb") {
        (text::string_from("ruby"), vec![file])
    } else if text::eq_str(&ext, "exe") || text::eq_str(&ext, "bat") || text::eq_str(&ext, "cmd") {
        (file, Vec::new())
    } else {
        let mut m = text::chars_of("不认识的脚本类型：.");
        text::append_chars(&mut m, &ext);
        return Err(text::string_of(&m));
    };
    proof {
        let fc = file_command(ext@, path@);
        assert(fc is Some);
        assert(views(args@) =~= fc->Some_0.1);
    }
    let mut note = text::chars_of(".");
    text::append_chars(&mut note, &ext);
    text::append_str(&mut note, " 脚本");
    Ok(guess("script", command, args, cwd, name, text::string_of(&note), text::copy_string(output_dir)))
}

/// Guesses how to run a picked directory or script file. Reads nothing
/// itself: `target` holds what the file system said.
pub fn inspect_target(target: &Target) -> (res: Result<EntryGuess, String>)
    ensures
        guess_view(res) == inspect_spec(*target),
{
    match target {
        Target::Missing => Err(text::string_from("路径不存在")),
        Target::Dir(f) => inspect_dir(f),
        Target::File { path, parent, output_dir } => inspect_file(path.as_str(), parent, output_dir),
    }
}

// ---------------------------------------------------------------------------
// Folder names for imported scripts
// ---------------------------------------------------------------------------

pub open spec fn slug_char_of(c: char) -> char {
    if text::is_ascii_alnum(c) || c == '-' || c == '_' {
        text::ascii_lower_char(c)
    } else {
        '-'
    }
}

/// Each run of dashes cut to one dash.
pub open spec fn squeeze_dashes(s: Seq<char>) -> Seq<char>
    decreases s.len(),
{
    if s.len() == 0 {
        s
    } else {
        let init = squeeze_dashes(s.drop_last());
        if s.last() == '-' && init.len() > 0 && init.last() == '-' {
            init
        } else {
            init.push(s.last())
        }
    }
}

pub open spec fn strip_trailing_dashes(s: Seq<char>) -> Seq<char>
    decreases s.len(),
{
    if s.len() > 0 && s.last() == '-' {
        strip_trailing_dashes(s.drop_last())
    } else {
        s
    }
}

/// An English-safe folder name: the trimmed name with every character but
/// ASCII letters, digits, `-` and `_` turned into `-`, lower-cased, runs
/// of dashes cut to one and dashes at either end dropped; where nothing is
/// left, `script-` and the first eight characters of `fallback`.
pub open spec fn slugify_spec(name: Seq<char>, fallback: Seq<char>) -> Seq<char> {
    let mapped = text::trim(name).map_values(|c: char| slug_char_of(c));
    let s = strip_trailing_dashes(text::strip_leading(squeeze_dashes(mapped), text::sep_either('-', '-')));
    if s.len() == 0 {
        "script-"@ + fallback.take(8)
    } else {
        s
    }
}

/// The folder name an imported script is copied to. `fallback` is a fresh
/// identifier (a UUID's simple form) for names with nothing usable.
pub fn slugify(name: &str, fallback: &str) -> (res: String)
    requires
        fallback@.len() >= 8,
    ensures
        res@ == slugify_spec(name@, fallback@),
{
    let t = text::trim_str(name);
    let mut squeezed: Vec<char> = Vec::new();
    let ghost f = |c: char| slug_char_of(c);
    let mut i: usize = 0;
    assert(t@.take(0).map_values(f) =~= Seq::<char>::empty());
    while i < t.len()
        invariant
            i <= t@.len(),
            f == (|c: char| slug_char_of(c)),
            squeezed@ == squeeze_dashes(t@.take(i as int).map_values(f)),
        decreases t.len() - i,
    {
        let c = t[i];
        let m = if text::is_alnum(c) || c == '-' || c == '_' {
            text::lower_char(c)
        } else {
            '-'
        };
        proof {
            assert(t@.take(i + 1).map_values(f) =~= t@.take(i as int).map_values(f).push(m));
            assert(t@.take(i + 1).map_values(f).drop_last() =~= t@.take(i as int).map_values(f));
        }
        if !(m == '-' && squeezed.len() > 0 && squeezed[squeezed.len() - 1] == '-') {
            squeezed.push(m);
        }
        i += 1;
    }
    assert(t@.take(t@.len() as int) =~= t@);
    let lead = text::strip_leading_either(&squeezed, '-', '-');
    let mut end = lead.len();
    assert(lead@.take(end as int) =~= lead@);
    while end > 0 && lead[end - 1] == '-'
        invariant
            end <= lead@.len(),
            strip_trailing_dashes(lead@) == strip_trailing_dashes(lead@.take(end as int)),
        decreases end,
    {
        assert(lead@.take(end as int).drop_last() =~= lead@.take(end - 1));
        end -= 1;
    }
    let mut out: Vec<char> = Vec::new();
    let mut k: usize = 0;
    while k < end
        invariant
            k <= end,
            end <= lead@.len(),
            out@ == lead@.take(k as int),
        decreases end - k,
    {
        out.push(lead[k]);
        assert(lead@.take(k + 1) =~= lead@.take(k as int).push(lead@[k as int]));
        k += 1;
    }
    assert(out@ == strip_trailing_dashes(lead@));
    if out.len() == 0 {
        let fb = text::chars_of(fallback);
        let mut res = text::chars_of("script-");
        let mut j: usize = 0;
        while j < 8
            invariant
                j <= 8,
                fb@.len() >= 8,
                fb@ == fallback@,
                res@ == "script-"@ + fb@.take(j as int),
            decreases 8 - j,
        {
            res.push(fb[j]);
            assert(fb@.take(j + 1) =~= fb@.take(j as int).push(fb@[j as int]));
            j += 1;
        }
        return text::string_of(&res);
    }
    text::string_of(&out)
}

/// The characters a folder name may hold: lower-case ASCII letters, digits,
/// `-` and `_`.
pub open spec fn folder_safe(c: char) -> bool {
    ('a' <= c <= 'z') || ('0' <= c <= '9') || c == '-' || c == '_'
}

pub open spec fn all_folder_safe(s: Seq<char>) -> bool {
    forall|i: int| 0 <= i < s.len() ==> folder_safe(#[trigger] s[i])
}

proof fn lemma_squeeze_safe(s: Seq<char>)
    requires
        all_folder_safe(s),
    ensures
        all_folder_safe(squeeze_dashes(s)),
    decreases s.len(),
{
    if s.len() > 0 {
        assert(all_folder_safe(s.drop_last())) by {
            assert forall|i: int| 0 <= i < s.drop_last().len() implies folder_safe(#[trigger] s.drop_last()[i]) by {
                assert(s.drop_last()[i] == s[i]);
            }
        }
        lemma_squeeze_safe(s.drop_last());
        assert(folder_safe(s[s.len() - 1]));
    }
}

proof fn lemma_strip_safe(s: Seq<char>)
    requires
        all_folder_safe(s),
    ensures
        all_folder_safe(strip_trailing_dashes(text::strip_leading(s, text::sep_either('-', '-')))),
    decreases s.len(),
{
    let p = text::sep_either('-', '-');
    if s.len() > 0 && p(s[0]) {
        assert(all_folder_safe(s.drop_first())) by {
            assert forall|i: int| 0 <= i < s.drop_first().len() implies folder_safe(#[trigger] s.drop_first()[i]) by {
                assert(s.drop_first()[i] == s[i + 1]);
            }
        }
        lemma_strip_safe(s.drop_first());
    } else {
        lemma_strip_trailing_safe(s);
    }
}

proof fn lemma_strip_trailing_safe(s: Seq<char>)
    requires
        all_folder_safe(s),
    ensures
        all_folder_safe(strip_trailing_dashes(s)),
    decreases s.len(),
{
    if s.len() > 0 && s.last() == '-' {
        assert(all_folder_safe(s.drop_last())) by {
            assert forall|i: int| 0 <= i < s.drop_last().len() implies folder_safe(#[trigger] s.drop_last()[i]) by {
                assert(s.drop_last()[i] == s[i]);
            }
        }
        lemma_strip_trailing_safe(s.drop_last());
    }
}

/// Folder names are English-safe: every character of a slug is a
/// lower-case ASCII letter, a digit, `-` or `_`, provided the fallback
/// identifier is made of lower-case ASCII letters and digits (as a UUID's
/// simple form is).
pub proof fn lemma_slug_is_folder_safe(name: Seq<char>, fallback: Seq<char>)
    requires
        fallback.len() >= 8,
        all_folder_safe(fallback),
    ensures
        all_folder_safe(slugify_spec(name, fallback)),
{
    let mapped = text::trim(name).map_values(|c: char| slug_char_of(c));
    assert forall|i: int| 0 <= i < mapped.len() implies folder_safe(#[trigger] mapped[i]) by {
        let c = text::trim(name)[i];
        assert(mapped[i] == slug_char_of(c));
        if text::is_ascii_alnum(c) || c == '-' || c == '_' {
            assert(folder_safe(text::ascii_lower_char(c)));
        }
    }
    lemma_squeeze_safe(mapped);
    lemma_strip_safe(squeeze_dashes(mapped));
    let s = strip_trailing_dashes(text::strip_leading(squeeze_dashes(mapped), text::sep_either('-', '-')));
    if s.len() == 0 {
        reveal_strlit("script-");
        let r = "script-"@ + fallback.take(8);
        assert forall|i: int| 0 <= i < r.len() implies folder_safe(#[trigger] r[i]) by {
            if i >= 7 {
                assert(r[i] == fallback[i - 7]);
            }
        }
    }
}

} // verus!

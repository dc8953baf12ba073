//! Advisory source inspection. The profile lists capabilities that known
//! patterns reveal in script text; it is not a malware verdict, and
//! obfuscated or remote code stays opaque to it.
use vstd::prelude::*;

use crate::paths;
use crate::text;
use crate::text::{char_views, contains, decimal, views};

verus! {

pub const MAX_SOURCE_FILES: usize = 128;

pub const MAX_SOURCE_BYTES: usize = 2097152;

/// A single source file larger than this stops the inspection.
pub const MAX_FILE_BYTES: usize = 1048576;

#[derive(Debug, Clone)]
pub struct Finding {
    pub capability: String,
    pub detail: String,
    pub severity: String,
}

#[derive(Debug, Clone)]
pub struct CapabilityProfile {
    pub reads_files: bool,
    pub writes_files: bool,
    pub deletes_files: bool,
    pub network: bool,
    pub exec_command: bool,
    pub reads_credentials: bool,
    pub dynamic_exec: bool,
    pub autostart: bool,
    pub hosts: Vec<String>,
    pub findings: Vec<Finding>,
    pub risk: String,
    pub summary: String,
    pub scope: String,
    pub files_scanned: usize,
    pub truncated: bool,
}

// ---------------------------------------------------------------------------
// The pattern catalogue
// ---------------------------------------------------------------------------

/// Number of capability categories; the first six are named in summaries.
pub open spec fn category_count() -> int {
    8
}

/// The lower-case patterns that reveal each capability category:
/// 0 reads files, 1 writes files, 2 deletes files, 3 network, 4 runs commands,
/// 5 reads credentials, 6 dynamic execution, 7 persistence.
pub open spec fn needles(k: int) -> Seq<Seq<char>> {
    if k == 0 {
        seq![
            "readfile"@,
            "read_to_string"@,
            "fs.read"@,
            "std::fs::read"@,
            "get-content"@,
            "open("@,
            "file.read"@,
            "readalltext"@,
        ]
    } else if k == 1 {
        seq![
            "writefile"@,
            "write_all"@,
            "fs.write"@,
            "std::fs::write"@,
            "set-content"@,
            "out-file"@,
            "writealltext"@,
            "file.write"@,
            ">>"@,
        ]
    } else if k == 2 {
        seq![
            "rmtree"@,
            "shutil.rmtree"@,
            "os.remove"@,
            "os.unlink"@,
            "fs.unlink"@,
            "unlinksync"@,
            "rmsync"@,
            "remove_file"@,
            "remove_dir_all"@,
            "remove-item"@,
            "rm -rf"@,
            "del /"@,
            "deletefile"@,
        ]
    } else if k == 3 {
        seq![
            "requests."@,
            "urllib"@,
            "http://"@,
            "https://"@,
            "fetch("@,
            "axios"@,
            "socket"@,
            "net.connect"@,
            "invoke-webrequest"@,
            "invoke-restmethod"@,
            "curl"@,
            "wget"@,
            "webclient"@,
            "httpclient"@,
        ]
    } else if k == 4 {
        seq![
            "os.system"@,
            "subprocess"@,
            "child_process"@,
            "spawn("@,
            "exec("@,
            "popen"@,
            "start-process"@,
            "processbuilder"@,
            "system("@,
            "cmd.exe"@,
            "powershell.exe"@,
        ]
    } else if k == 5 {
        seq![
            ".ssh"@,
            ".aws"@,
            "id_rsa"@,
            "os.environ"@,
            "process.env"@,
            "getenvironmentvariable"@,
            "keychain"@,
            "credential"@,
            "cookies"@,
            "login data"@,
            "local state"@,
        ]
    } else if k == 6 {
        seq![
            "eval("@,
            "exec("@,
            "new function"@,
            "invoke-expression"@,
            "iex "@,
            "base64.b64decode"@,
            "frombase64string"@,
            "atob("@,
            "-encodedcommand"@,
        ]
    } else {
        seq![
            "startup"@,
            "currentversion\\run"@,
            "launchagents"@,
            "crontab"@,
            "systemd"@,
            "schtasks"@,
            "register-scheduledtask"@,
            "登录启动"@,
        ]
    }
}

/// The finding recorded for category `k`: capability, detail and severity.
pub open spec fn finding_of(k: int) -> (Seq<char>, Seq<char>, Seq<char>) {
    if k == 0 {
        ("读文件"@, "源码包含本地文件读取操作"@, "info"@)
    } else if k == 1 {
        ("写文件"@, "源码包含本地文件写入操作"@, "low"@)
    } else if k == 2 {
        ("删除文件"@, "源码包含删除文件或目录的操作"@, "medium"@)
    } else if k == 3 {
        ("联网"@, "源码包含网络请求或套接字操作"@, "low"@)
    } else if k == 4 {
        ("执行命令"@, "源码会启动外部命令或子进程"@, "medium"@)
    } else if k == 5 {
        ("读取敏感信息"@, "源码可能读取环境变量、凭据或浏览器登录数据"@, "high"@)
    } else if k == 6 {
        ("动态执行 / 混淆"@, "源码可能动态拼接、解码后执行，静态检查无法看穿"@, "high"@)
    } else {
        ("持久化 / 开机自启"@, "源码可能修改开机启动或计划任务"@, "high"@)
    }
}

pub open spec fn strs_view(v: Seq<&str>) -> Seq<Seq<char>> {
    v.map_values(|s: &str| s@)
}

/// `has_any`: some pattern occurs in the text.
pub open spec fn has_any_spec(text: Seq<char>, pats: Seq<Seq<char>>) -> bool {
    exists|j: int| 0 <= j < pats.len() && #[trigger] contains(text, pats[j])
}

/// Whether category `k` matches the (lower-cased) text.
pub open spec fn flag(text: Seq<char>, k: int) -> bool {
    has_any_spec(text, needles(k))
}

pub open spec fn finding_view(f: Finding) -> (Seq<char>, Seq<char>, Seq<char>) {
    (f.capability@, f.detail@, f.severity@)
}

pub open spec fn findings_view(v: Seq<Finding>) -> Seq<(Seq<char>, Seq<char>, Seq<char>)> {
    v.map_values(|f: Finding| finding_view(f))
}

/// The findings for the first `n` categories, in category order.
pub open spec fn findings_upto(flags: Seq<bool>, n: int) -> Seq<(Seq<char>, Seq<char>, Seq<char>)>
    decreases n,
{
    if n <= 0 {
        Seq::empty()
    } else if flags[n - 1] {
        findings_upto(flags, n - 1).push(finding_of(n - 1))
    } else {
        findings_upto(flags, n - 1)
    }
}

/// The capability names (categories 0..6) that the flags mark.
pub open spec fn caps_upto(flags: Seq<bool>, n: int) -> Seq<Seq<char>>
    decreases n,
{
    if n <= 0 {
        Seq::empty()
    } else if flags[n - 1] {
        caps_upto(flags, n - 1).push(finding_of(n - 1).0)
    } else {
        caps_upto(flags, n - 1)
    }
}

pub open spec fn text_flags(text: Seq<char>) -> Seq<bool> {
    Seq::new(8, |k: int| flag(text, k))
}

pub open spec fn profile_flags(p: CapabilityProfile) -> Seq<bool> {
    seq![
        p.reads_files,
        p.writes_files,
        p.deletes_files,
        p.network,
        p.exec_command,
        p.reads_credentials,
        p.dynamic_exec,
        p.autostart,
    ]
}

/// The overall risk rating for a set of category flags.
pub open spec fn risk_of(f: Seq<bool>) -> Seq<char> {
    if f[6] || f[7] || f[5] {
        "high"@
    } else if (f[3] && (f[1] || f[4])) || f[2] {
        "medium"@
    } else if f[3] || f[4] || f[1] {
        "low"@
    } else {
        "minimal"@
    }
}

/// `list.join(sep)`.
pub open spec fn join(list: Seq<Seq<char>>, sep: Seq<char>) -> Seq<char>
    decreases list.len(),
{
    if list.len() == 0 {
        Seq::empty()
    } else if list.len() == 1 {
        list[0]
    } else {
        join(list.drop_last(), sep) + sep + list.last()
    }
}

/// The sentence that ends a profile.
pub open spec fn summary_of(caps: Seq<Seq<char>>, risk: Seq<char>) -> Seq<char> {
    if risk == "unknown"@ {
        "没有取得可完整检查的文本源码，无法判断代码行为；这不是安全证明。"@
    } else if caps.len() == 0 {
        "已检查范围内未匹配到已知危险模式；静态检查仍看不穿混淆、运行时生成代码和远程载荷，这不是安全证明。"@
    } else {
        "已检查源码可能会："@ + join(caps, "、"@) + "。Mosaic 只提示这些能力，不会在运行时拦截。"@
    }
}

/// The first occurrence of every host, in order.
pub open spec fn dedup(s: Seq<Seq<char>>) -> Seq<Seq<char>>
    decreases s.len(),
{
    if s.len() == 0 {
        Seq::empty()
    } else {
        let d = dedup(s.drop_last());
        if d.contains(s.last()) {
            d
        } else {
            d.push(s.last())
        }
    }
}

/// The hosts of `http://` / `https://` URLs in the text, one per match of
/// `https?://([a-zA-Z0-9.\-_]+)` (leftmost-first, non-overlapping), as the
/// `regex` crate finds them.
pub uninterp spec fn url_hosts_in(source: Seq<char>) -> Seq<Seq<char>>;

/// The profile `analyze` computes for a text, apart from the scope fields.
pub open spec fn analyzed(p: CapabilityProfile, source: Seq<char>) -> bool {
    let lower = text::unicode_lowercase(source);
    let flags = text_flags(lower);
    &&& profile_flags(p) == flags
    &&& findings_view(p.findings@) == findings_upto(flags, 8)
    &&& views(p.hosts@) == dedup(url_hosts_in(source))
    &&& p.risk@ == risk_of(flags)
    &&& p.summary@ == summary_of(caps_upto(flags, 6), risk_of(flags))
}

// ---------------------------------------------------------------------------
// Executable code
// ---------------------------------------------------------------------------

fn needles_exec(k: usize) -> (res: Vec<&'static str>)
    requires
        k < 8,
    ensures
        strs_view(res@) == needles(k as int),
{
    let res = if k == 0 {
        vec![
            "readfile",
            "read_to_string",
            "fs.read",
            "std::fs::read",
            "get-content",
            "open(",
            "file.read",
            "readalltext",
        ]
    } else if k == 1 {
        vec![
            "writefile",
            "write_all",
            "fs.write",
            "std::fs::write",
            "set-content",
            "out-file",
            "writealltext",
            "file.write",
            ">>",
        ]
    } else if k == 2 {
        vec![
            "rmtree",
            "shutil.rmtree",
            "os.remove",
            "os.unlink",
            "fs.unlink",
            "unlinksync",
            "rmsync",
            "remove_file",
            "remove_dir_all",
            "remove-item",
            "rm -rf",
            "del /",
            "deletefile",
        ]
    } else if k == 3 {
        vec![
            "requests.",
            "urllib",
            "http://",
            "https://",
            "fetch(",
            "axios",
            "socket",
            "net.connect",
            "invoke-webrequest",
            "invoke-restmethod",
            "curl",
            "wget",
            "webclient",
            "httpclient",
        ]
    } else if k == 4 {
        vec![
            "os.system",
            "subprocess",
            "child_process",
            "spawn(",
            "exec(",
            "popen",
            "start-process",
            "processbuilder",
            "system(",
            "cmd.exe",
            "powershell.exe",
        ]
    } else if k == 5 {
        vec![
            ".ssh",
            ".aws",
            "id_rsa",
            "os.environ",
            "process.env",
            "getenvironmentvariable",
            "keychain",
            "credential",
            "cookies",
            "login data",
            "local state",
        ]
    } else if k == 6 {
        vec![
            "eval(",
            "exec(",
            "new function",
            "invoke-expression",
            "iex ",
            "base64.b64decode",
            "frombase64string",
            "atob(",
            "-encodedcommand",
        ]
    } else {
        vec![
            "startup",
            "currentversion\\run",
            "launchagents",
            "crontab",
            "systemd",
            "schtasks",
            "register-scheduledtask",
            "登录启动",
        ]
    };
    assert(strs_view(res@) =~= needles(k as int));
    res
}

fn finding_exec(k: usize) -> (res: Finding)
    requires
        k < 8,
    ensures
        finding_view(res) == finding_of(k as int),
{
    let (c, d, s) = if k == 0 {
        ("读文件", "源码包含本地文件读取操作", "info")
    } else if k == 1 {
        ("写文件", "源码包含本地文件写入操作", "low")
    } else if k == 2 {
        ("删除文件", "源码包含删除文件或目录的操作", "medium")
    } else if k == 3 {
        ("联网", "源码包含网络请求或套接字操作", "low")
    } else if k == 4 {
        ("执行命令", "源码会启动外部命令或子进程", "medium")
    } else if k == 5 {
        ("读取敏感信息", "源码可能读取环境变量、凭据或浏览器登录数据", "high")
    } else if k == 6 {
        ("动态执行 / 混淆", "源码可能动态拼接、解码后执行，静态检查无法看穿", "high")
    } else {
        ("持久化 / 开机自启", "源码可能修改开机启动或计划任务", "high")
    };
    Finding {
        capability: text::string_from(c),
        detail: text::string_from(d),
        severity: text::string_from(s),
    }
}

/// Whether any of the patterns occurs in the text.
pub fn has_any(text: &Vec<char>, pats: &Vec<&str>) -> (res: bool)
    ensures
        res == has_any_spec(text@, strs_view(pats@)),
{
    let mut j: usize = 0;
    while j < pats.len()
        invariant
            j <= pats.len(),
            forall|i: int| 0 <= i < j ==> !contains(text@, #[trigger] strs_view(pats@)[i]),
        decreases pats.len() - j,
    {
        if text::contains_str(text, pats[j]) {
            assert(contains(text@, strs_view(pats@)[j as int]));
            return true;
        }
        j += 1;
    }
    false
}

/// Calls `Regex::captures_iter` with `https?://([a-zA-Z0-9\.\-_]+)` and hands
/// out capture group 1 of every match. Claimed: the result is
/// `url_hosts_in` of the text and depends on nothing else.
#[verifier::external_body]
fn url_hosts(source: &str) -> (res: Vec<String>)
    ensures
        views(res@) == url_hosts_in(source@),
{
    match regex::Regex::new(r#"https?://([a-zA-Z0-9\.\-_]+)"#) {
        Ok(pattern) => pattern
            .captures_iter(source)
            .filter_map(|capture| capture.get(1))
            .map(|host| host.as_str().to_string())
            .collect(),
        Err(_) => Vec::new(),
    }
}

fn contains_string(v: &Vec<String>, s: &String) -> (res: bool)
    ensures
        res == views(v@).contains(s@),
{
    let mut i: usize = 0;
    while i < v.len()
        invariant
            i <= v.len(),
            forall|k: int| 0 <= k < i ==> views(v@)[k] != s@,
        decreases v.len() - i,
    {
        if text::str_eq(v[i].as_str(), s.as_str()) {
            assert(views(v@)[i as int] == s@);
            return true;
        }
        i += 1;
    }
    false
}

fn dedup_hosts(hosts: Vec<String>) -> (res: Vec<String>)
    ensures
        views(res@) == dedup(views(hosts@)),
{
    let mut out: Vec<String> = Vec::new();
    let mut i: usize = 0;
    assert(views(hosts@).take(0) =~= Seq::<Seq<char>>::empty());
    while i < hosts.len()
        invariant
            i <= hosts.len(),
            views(out@) == dedup(views(hosts@).take(i as int)),
        decreases hosts.len() - i,
    {
        let h = &hosts[i];
        proof {
            let t = views(hosts@).take(i + 1);
            assert(t.drop_last() =~= views(hosts@).take(i as int));
            assert(t.last() == h@);
        }
        if !contains_string(&out, h) {
            let ghost before = out@;
            out.push(text::copy_string(h));
            assert(views(out@) =~= views(before).push(h@));
        }
        i += 1;
    }
    assert(views(hosts@).take(hosts.len() as int) =~= views(hosts@));
    out
}

proof fn lemma_findings_step(flags: Seq<bool>, n: int)
    requires
        0 <= n,
    ensures
        findings_upto(flags, n + 1) == (if flags[n] {
            findings_upto(flags, n).push(finding_of(n))
        } else {
            findings_upto(flags, n)
        }),
        caps_upto(flags, n + 1) == (if flags[n] {
            caps_upto(flags, n).push(finding_of(n).0)
        } else {
            caps_upto(flags, n)
        }),
{
}

proof fn lemma_upto_same(a: Seq<bool>, b: Seq<bool>, n: int)
    requires
        0 <= n <= a.len(),
        n <= b.len(),
        forall|k: int| 0 <= k < n ==> a[k] == b[k],
    ensures
        findings_upto(a, n) == findings_upto(b, n),
        caps_upto(a, n) == caps_upto(b, n),
    decreases n,
{
    if n > 0 {
        lemma_upto_same(a, b, n - 1);
    }
}

fn join_chars(list: &Vec<Vec<char>>, sep: &str) -> (res: Vec<char>)
    ensures
        res@ == join(char_views(list@), sep@),
{
    let mut res: Vec<char> = Vec::new();
    let mut i: usize = 0;
    assert(char_views(list@).take(0) =~= Seq::<Seq<char>>::empty());
    while i < list.len()
        invariant
            i <= list.len(),
            res@ == join(char_views(list@).take(i as int), sep@),
        decreases list.len() - i,
    {
        proof {
            let t = char_views(list@).take(i + 1);
            assert(t.drop_last() =~= char_views(list@).take(i as int));
            assert(t.last() == list@[i as int]@);
        }
        if i > 0 {
            text::append_str(&mut res, sep);
        } else {
            assert(char_views(list@).take(1) =~= seq![list@[0]@]);
        }
        text::append_chars(&mut res, &list[i]);
        i += 1;
    }
    assert(char_views(list@).take(list.len() as int) =~= char_views(list@));
    res
}

/// Writes the closing sentence from the profile's own flags and risk.
pub fn finish_summary(profile: &mut CapabilityProfile)
    ensures
        final(profile).summary@ == summary_of(
            caps_upto(profile_flags(*old(profile)), 6),
            old(profile).risk@,
        ),
        *final(profile) == (CapabilityProfile { summary: final(profile).summary, ..*old(profile) }),
{
    let ghost flags = profile_flags(*profile);
    let mut caps: Vec<Vec<char>> = Vec::new();
    let mut k: usize = 0;
    while k < 6
        invariant
            k <= 6,
            flags == profile_flags(*profile),
            char_views(caps@) == caps_upto(flags, k as int),
        decreases 6 - k,
    {
        let on = match k {
            0 => profile.reads_files,
            1 => profile.writes_files,
            2 => profile.deletes_files,
            3 => profile.network,
            4 => profile.exec_command,
            _ => profile.reads_credentials,
        };
        assert(on == flags[k as int]);
        proof {
            lemma_findings_step(flags, k as int);
        }
        if on {
            let f = finding_exec(k);
            let ghost before = caps@;
            caps.push(text::chars_of(f.capability.as_str()));
            assert(char_views(caps@) =~= char_views(before).push(finding_of(k as int).0));
        }
        k += 1;
    }
    let risk = text::chars_of(profile.risk.as_str());
    let unknown = text::eq_str(&risk, "unknown");
    let summary = if unknown {
        text::string_from("没有取得可完整检查的文本源码，无法判断代码行为；这不是安全证明。")
    } else if caps.len() == 0 {
        text::string_from(
            "已检查范围内未匹配到已知危险模式；静态检查仍看不穿混淆、运行时生成代码和远程载荷，这不是安全证明。",
        )
    } else {
        let mut out = text::chars_of("已检查源码可能会：");
        let joined = join_chars(&caps, "、");
        text::append_chars(&mut out, &joined);
        text::append_str(&mut out, "。Mosaic 只提示这些能力，不会在运行时拦截。");
        text::string_of(&out)
    };
    profile.summary = summary;
}

fn risk_exec(f: &Vec<bool>) -> (res: String)
    requires
        f@.len() == 8,
    ensures
        res@ == risk_of(f@),
{
    if f[6] || f[7] || f[5] {
        text::string_from("high")
    } else if (f[3] && (f[1] || f[4])) || f[2] {
        text::string_from("medium")
    } else if f[3] || f[4] || f[1] {
        text::string_from("low")
    } else {
        text::string_from("minimal")
    }
}

/// Classifies the capabilities visible in the text. The scope fields are
/// left empty for the caller to describe what was inspected.
pub fn analyze(source: &str) -> (profile: CapabilityProfile)
    ensures
        analyzed(profile, source@),
        profile.scope@.len() == 0,
        profile.files_scanned == 0,
        !profile.truncated,
{
    let lowered = text::to_lowercase(source);
    let lower = text::chars_of(lowered.as_str());
    let ghost lspec = text::unicode_lowercase(source@);
    let ghost flags_spec = text_flags(lspec);
    let mut flags: Vec<bool> = Vec::new();
    let mut findings: Vec<Finding> = Vec::new();
    let mut k: usize = 0;
    while k < 8
        invariant
            k <= 8,
            lower@ == lspec,
            flags_spec == text_flags(lspec),
            flags@ == flags_spec.take(k as int),
            findings_view(findings@) == findings_upto(flags_spec, k as int),
        decreases 8 - k,
    {
        let pats = needles_exec(k);
        let hit = has_any(&lower, &pats);
        assert(hit == flags_spec[k as int]);
        proof {
            lemma_findings_step(flags_spec, k as int);
        }
        if hit {
            let ghost before = findings@;
            findings.push(finding_exec(k));
            assert(findings_view(findings@) =~= findings_view(before).push(finding_of(k as int)));
        }
        flags.push(hit);
        assert(flags@ =~= flags_spec.take(k + 1));
        k += 1;
    }
    assert(flags@ =~= flags_spec);
    let hosts = dedup_hosts(url_hosts(source));
    let risk = risk_exec(&flags);
    let mut profile = CapabilityProfile {
        reads_files: flags[0],
        writes_files: flags[1],
        deletes_files: flags[2],
        network: flags[3],
        exec_command: flags[4],
        reads_credentials: flags[5],
        dynamic_exec: flags[6],
        autostart: flags[7],
        hosts,
        findings,
        risk,
        summary: String::new(),
        scope: String::new(),
        files_scanned: 0,
        truncated: false,
    };
    assert(profile_flags(profile) =~= flags_spec);
    finish_summary(&mut profile);
    profile
}

/// "已检查粘贴文本（N 个字符）" — the scope of a pasted-text scan.
pub open spec fn pasted_scope(source: Seq<char>) -> Seq<char> {
    "已检查粘贴文本（"@ + decimal(source.len()) + " 个字符）"@
}

/// Profiles text pasted by the user.
pub fn scan(source: &str) -> (profile: CapabilityProfile)
    ensures
        analyzed(profile, source@),
        profile.scope@ == pasted_scope(source@),
        profile.files_scanned == 0,
        !profile.truncated,
{
    let mut profile = analyze(source);
    let chars = text::chars_of(source);
    let mut scope = text::chars_of("已检查粘贴文本（");
    text::push_decimal(&mut scope, chars.len() as u64);
    text::append_str(&mut scope, " 个字符）");
    profile.scope = text::string_of(&scope);
    profile
}

// ---------------------------------------------------------------------------
// Task entries
// ---------------------------------------------------------------------------

/// The inline-source flags of the interpreter named by `command`
/// (its file name, ASCII-lowercased).
pub open spec fn inline_flags(command: Seq<char>) -> Seq<Seq<char>> {
    let name = text::ascii_lower(
        match paths::path_file_name(command) {
            Some(n) => n,
            None => command,
        },
    );
    if name == "node"@ || name == "node.exe"@ || name == "python"@ || name == "python.exe"@
        || name == "python3"@ || name == "py"@ {
        seq!["-e"@, "--eval"@, "-c"@]
    } else if name == "powershell"@ || name == "powershell.exe"@ || name == "pwsh"@ || name
        == "pwsh.exe"@ {
        seq!["-command"@, "-c"@]
    } else {
        Seq::empty()
    }
}

/// `eq_ignore_ascii_case`.
pub open spec fn eq_ignore_case(a: Seq<char>, b: Seq<char>) -> bool {
    text::ascii_lower(a) == text::ascii_lower(b)
}

pub open spec fn is_inline_flag(arg: Seq<char>, flags: Seq<Seq<char>>) -> bool {
    exists|j: int| 0 <= j < flags.len() && #[trigger] eq_ignore_case(arg, flags[j])
}

/// The argument after the first inline-source flag, if any.
pub open spec fn inline_source_spec(command: Seq<char>, args: Seq<Seq<char>>) -> Option<
    Seq<char>,
> {
    let flags = inline_flags(command);
    if exists|i: int| 0 <= i < args.len() - 1 && #[trigger] is_inline_flag(args[i], flags) {
        let i = choose|i: int|
            0 <= i < args.len() - 1 && #[trigger] is_inline_flag(args[i], flags) && forall|j: int|
                0 <= j < i ==> !is_inline_flag(#[trigger] args[j], flags);
        Some(args[i + 1])
    } else {
        None
    }
}

fn eq_ignore_case_exec(a: &Vec<char>, b: &str) -> (res: bool)
    ensures
        res == eq_ignore_case(a@, b@),
{
    let la = text::ascii_lowercase(a);
    let bv = text::chars_of(b);
    let lb = text::ascii_lowercase(&bv);
    text::eq_chars(&la, &lb)
}

fn inline_flags_exec(command: &str) -> (res: Vec<&'static str>)
    ensures
        strs_view(res@) == inline_flags(command@),
{
    let name = paths::file_name_or_self(command);
    let raw = text::chars_of(name.as_str());
    let n = text::ascii_lowercase(&raw);
    let res = if text::eq_str(&n, "node") || text::eq_str(&n, "node.exe") || text::eq_str(
        &n,
        "python",
    ) || text::eq_str(&n, "python.exe") || text::eq_str(&n, "python3") || text::eq_str(&n, "py") {
        vec!["-e", "--eval", "-c"]
    } else if text::eq_str(&n, "powershell") || text::eq_str(&n, "powershell.exe")
        || text::eq_str(&n, "pwsh") || text::eq_str(&n, "pwsh.exe") {
        vec!["-command", "-c"]
    } else {
        Vec::new()
    };
    assert(strs_view(res@) =~= inline_flags(command@));
    res
}

/// Source code passed on the command line (`node -e ...`, `python -c ...`,
/// `powershell -Command ...`): the argument after the first such flag.
pub fn inline_source(command: &str, args: &Vec<String>) -> (res: Option<String>)
    ensures
        paths::opt_view(res) == inline_source_spec(command@, views(args@)),
{
    let flags = inline_flags_exec(command);
    let ghost fl = inline_flags(command@);
    let ghost a = views(args@);
    let mut i: usize = 0;
    while args.len() > 0 && i < args.len() - 1
        invariant
            fl == inline_flags(command@),
            strs_view(flags@) == fl,
            a == views(args@),
            i <= args.len(),
            forall|j: int| 0 <= j < i ==> !is_inline_flag(#[trigger] a[j], fl),
        decreases args.len() - i,
    {
        let arg = text::chars_of(args[i].as_str());
        let mut j: usize = 0;
        let mut hit = false;
        while j < flags.len()
            invariant
                j <= flags.len(),
                strs_view(flags@) == fl,
                i < args.len(),
                a == views(args@),
                arg@ == a[i as int],
                hit == (exists|m: int| 0 <= m < j && #[trigger] eq_ignore_case(arg@, fl[m])),
            decreases flags.len() - j,
        {
            let is = eq_ignore_case_exec(&arg, flags[j]);
            assert(flags@[j as int]@ == fl[j as int]);
            if is {
                hit = true;
            }
            j += 1;
        }
        if hit {
            proof {
                assert(is_inline_flag(a[i as int], fl));
                let w = choose|k: int|
                    0 <= k < a.len() - 1 && #[trigger] is_inline_flag(a[k], fl) && forall|m: int|
                        0 <= m < k ==> !is_inline_flag(#[trigger] a[m], fl);
                if w < i {
                    assert(!is_inline_flag(a[w], fl));
                } else if w > i {
                    assert(!is_inline_flag(a[i as int], fl));
                }
            }
            return Some(text::copy_string(&args[i + 1]));
        }
        i += 1;
    }
    proof {
        assert forall|k: int| 0 <= k < a.len() - 1 implies !#[trigger] is_inline_flag(a[k], fl) by {
            assert(k < i);
        }
    }
    None
}

/// The paths that may name a task's entry file, in the order they are tried:
/// the command, then the argument after each `-file` or `/c`, then every
/// argument that does not start with `-` or `/`.
pub open spec fn entry_candidates_spec(command: Seq<char>, args: Seq<Seq<char>>) -> Seq<
    Seq<char>,
> {
    seq![command] + after_flags(args, args.len() as int) + plain_args(args, args.len() as int)
}

pub open spec fn is_file_flag(arg: Seq<char>) -> bool {
    eq_ignore_case(arg, "-file"@) || eq_ignore_case(arg, "/c"@)
}

pub open spec fn after_flags(args: Seq<Seq<char>>, n: int) -> Seq<Seq<char>>
    decreases n,
{
    if n <= 0 {
        Seq::empty()
    } else if is_file_flag(args[n - 1]) && n < args.len() {
        after_flags(args, n - 1).push(args[n])
    } else {
        after_flags(args, n - 1)
    }
}

pub open spec fn plain_args(args: Seq<Seq<char>>, n: int) -> Seq<Seq<char>>
    decreases n,
{
    if n <= 0 {
        Seq::empty()
    } else if !text::starts_with(args[n - 1], "-"@) && !text::starts_with(args[n - 1], "/"@) {
        plain_args(args, n - 1).push(args[n - 1])
    } else {
        plain_args(args, n - 1)
    }
}

/// The candidate entry paths of a task; the first one that is an existing
/// file is the entry.
pub fn entry_candidates(command: &str, args: &Vec<String>) -> (res: Vec<String>)
    ensures
        views(res@) == entry_candidates_spec(command@, views(args@)),
{
    let ghost a = views(args@);
    let mut flagged: Vec<String> = Vec::new();
    let mut plain: Vec<String> = Vec::new();
    let mut i: usize = 0;
    while i < args.len()
        invariant
            i <= args.len(),
            a == views(args@),
            views(flagged@) == after_flags(a, i as int),
            views(plain@) == plain_args(a, i as int),
        decreases args.len() - i,
    {
        let arg = text::chars_of(args[i].as_str());
        if (eq_ignore_case_exec(&arg, "-file") || eq_ignore_case_exec(&arg, "/c")) && i + 1
            < args.len() {
            let ghost before = flagged@;
            flagged.push(text::copy_string(&args[i + 1]));
            assert(views(flagged@) =~= views(before).push(a[i + 1]));
        }
        if !text::starts_with_str(&arg, "-") && !text::starts_with_str(&arg, "/") {
            let ghost before = plain@;
            plain.push(text::copy_string(&args[i]));
            assert(views(plain@) =~= views(before).push(a[i as int]));
        }
        i += 1;
    }
    let mut res: Vec<String> = Vec::new();
    res.push(text::string_from(command));
    let ghost first = views(res@);
    res.append(&mut flagged);
    res.append(&mut plain);
    assert(views(res@) =~= first + after_flags(a, a.len() as int) + plain_args(a, a.len() as int));
    res
}

pub open spec fn source_ext_spec(ext: Seq<char>) -> bool {
    let e = text::ascii_lower(ext);
    e == "ps1"@ || e == "py"@ || e == "js"@ || e == "mjs"@ || e == "cjs"@ || e == "ts"@ || e
        == "tsx"@ || e == "jsx"@ || e == "bat"@ || e == "cmd"@ || e == "rs"@ || e == "go"@ || e
        == "sh"@
}

/// Whether the file's extension marks inspectable source code.
pub fn source_extension(path: &str) -> (res: bool)
    ensures
        res == source_ext_spec(
            match paths::path_extension(path@) {
                Some(e) => e,
                None => Seq::empty(),
            },
        ),
{
    let ext = match paths::extension(path) {
        Some(e) => text::chars_of(e.as_str()),
        None => Vec::new(),
    };
    let e = text::ascii_lowercase(&ext);
    text::eq_str(&e, "ps1") || text::eq_str(&e, "py") || text::eq_str(&e, "js") || text::eq_str(
        &e,
        "mjs",
    ) || text::eq_str(&e, "cjs") || text::eq_str(&e, "ts") || text::eq_str(&e, "tsx")
        || text::eq_str(&e, "jsx") || text::eq_str(&e, "bat") || text::eq_str(&e, "cmd")
        || text::eq_str(&e, "rs") || text::eq_str(&e, "go") || text::eq_str(&e, "sh")
}

pub open spec fn ignored_name(name: Seq<char>) -> bool {
    let n = text::ascii_lower(name);
    n == ".git"@ || n == "node_modules"@ || n == "target"@ || n == "dist"@ || n == "build"@ || n
        == ".venv"@ || n == "venv"@ || n == "__pycache__"@
}

/// Whether a directory is skipped (version control, dependencies, builds).
pub fn ignored_dir(path: &str) -> (res: bool)
    ensures
        res == ignored_name(
            match paths::path_file_name(path@) {
                Some(n) => n,
                None => Seq::empty(),
            },
        ),
{
    let name = match paths::file_name(path) {
        Some(n) => text::chars_of(n.as_str()),
        None => Vec::new(),
    };
    let n = text::ascii_lowercase(&name);
    text::eq_str(&n, ".git") || text::eq_str(&n, "node_modules") || text::eq_str(&n, "target")
        || text::eq_str(&n, "dist") || text::eq_str(&n, "build") || text::eq_str(&n, ".venv")
        || text::eq_str(&n, "venv") || text::eq_str(&n, "__pycache__")
}


// ---------------------------------------------------------------------------
// Inspecting a task's project files
// ---------------------------------------------------------------------------

/// What has been read of a task's source files so far. The caller walks the
/// project (in file-name order, skipping ignored directories and files
/// without a source extension) and reports each step; the collection decides
/// when the inspection is complete or must stop.
pub struct SourceCollection {
    pub files: usize,
    pub bytes: usize,
    pub combined: Vec<char>,
    pub truncated: bool,
}

impl SourceCollection {
    pub open spec fn wf(&self) -> bool {
        self.bytes <= MAX_SOURCE_BYTES && self.files <= MAX_SOURCE_FILES
    }

    /// The command line the inspection starts from: `"{command} {args joined by spaces}"`.
    pub open spec fn command_line(command: Seq<char>, args: Seq<Seq<char>>) -> Seq<char> {
        command + " "@ + join(args, " "@)
    }

    pub fn new(command: &str, args: &Vec<String>) -> (res: SourceCollection)
        ensures
            res.wf(),
            res.files == 0,
            res.bytes == 0,
            !res.truncated,
            res.combined@ == Self::command_line(command@, views(args@)),
    {
        let mut pieces: Vec<Vec<char>> = Vec::new();
        let mut i: usize = 0;
        while i < args.len()
            invariant
                i <= args.len(),
                char_views(pieces@) == views(args@).take(i as int),
            decreases args.len() - i,
        {
            let ghost before = pieces@;
            pieces.push(text::chars_of(args[i].as_str()));
            assert(char_views(pieces@) =~= char_views(before).push(views(args@)[i as int]));
            assert(views(args@).take(i + 1) =~= views(args@).take(i as int).push(
                views(args@)[i as int],
            ));
            i += 1;
        }
        assert(views(args@).take(args.len() as int) =~= views(args@));
        let mut combined = text::chars_of(command);
        text::append_str(&mut combined, " ");
        let joined = join_chars(&pieces, " ");
        text::append_chars(&mut combined, &joined);
        SourceCollection { files: 0, bytes: 0, combined, truncated: false }
    }

    /// Called on entering every file or directory of the walk. Returns
    /// whether the walk may go on; past the file-count or byte budget the
    /// inspection is marked truncated.
    pub fn enter(&mut self) -> (go_on: bool)
        requires
            old(self).wf(),
        ensures
            final(self).wf(),
            go_on == (old(self).files < MAX_SOURCE_FILES && old(self).bytes < MAX_SOURCE_BYTES),
            *final(self) == (if go_on {
                *old(self)
            } else {
                SourceCollection { truncated: true, ..*old(self) }
            }),
    {
        if self.files >= MAX_SOURCE_FILES || self.bytes >= MAX_SOURCE_BYTES {
            self.truncated = true;
            false
        } else {
            true
        }
    }

    /// Offers a source file of `raw_len` bytes, right after `enter` allowed
    /// it; `text` is its content when it is valid UTF-8. Returns whether the
    /// walk may go on.
    pub fn offer(&mut self, path: &str, raw_len: usize, text: Option<&str>) -> (go_on: bool)
        requires
            old(self).wf(),
            old(self).files < MAX_SOURCE_FILES,
        ensures
            final(self).wf(),
            go_on == (raw_len <= MAX_FILE_BYTES && old(self).bytes + raw_len <= MAX_SOURCE_BYTES),
            !go_on ==> *final(self) == (SourceCollection { truncated: true, ..*old(self) }),
            go_on && text.is_none() ==> *final(self) == *old(self),
            go_on && text.is_some() ==> {
                &&& final(self).files == old(self).files + 1
                &&& final(self).bytes == old(self).bytes + raw_len
                &&& final(self).truncated == old(self).truncated
                &&& final(self).combined@ == old(self).combined@ + "\n/* file: "@ + path@
                    + " */\n"@ + text.unwrap()@
            },
    {
        if raw_len > MAX_FILE_BYTES || raw_len > MAX_SOURCE_BYTES - self.bytes {
            self.truncated = true;
            return false;
        }
        match text {
            None => true,
            Some(t) => {
                self.bytes = self.bytes + raw_len;
                self.files = self.files + 1;
                text::append_str(&mut self.combined, "\n/* file: ");
                text::append_str(&mut self.combined, path);
                text::append_str(&mut self.combined, " */\n");
                text::append_str(&mut self.combined, t);
                true
            },
        }
    }
}

pub open spec fn hidden_source_finding() -> (Seq<char>, Seq<char>, Seq<char>) {
    ("源码不可见"@, "入口可能是二进制、系统命令或不可读取文件"@, "high"@)
}

pub open spec fn incomplete_finding() -> (Seq<char>, Seq<char>, Seq<char>) {
    ("检查不完整"@, "项目超过 128 个文件或 2 MB 文本上限"@, "high"@)
}

pub open spec fn kib(bytes: nat) -> nat {
    (bytes + 1023) / 1024
}

/// The profile of the files a task's walk collected.
pub open spec fn sources_profiled(p: CapabilityProfile, c: SourceCollection) -> bool {
    let flags = text_flags(text::unicode_lowercase(c.combined@));
    &&& profile_flags(p) == flags
    &&& views(p.hosts@) == dedup(url_hosts_in(c.combined@))
    &&& if c.files == 0 {
        &&& p.risk@ == "unknown"@
        &&& findings_view(p.findings@) == findings_upto(flags, 8).push(hidden_source_finding())
        &&& p.summary@ == summary_of(caps_upto(flags, 6), "unknown"@)
        &&& p.scope@ == "只检查了命令和参数；未找到可读取的文本源码"@
        &&& p.files_scanned == 0
        &&& !p.truncated
    } else {
        &&& p.files_scanned == c.files
        &&& p.truncated == c.truncated
        &&& p.scope@ == "已读取 "@ + decimal(c.files as nat) + " 个源码文件，共 "@ + decimal(
            kib(c.bytes as nat),
        ) + " KB"@
        &&& if c.truncated {
            &&& p.risk@ == "unknown"@
            &&& findings_view(p.findings@) == findings_upto(flags, 8).push(incomplete_finding())
            &&& p.summary@ == summary_of(caps_upto(flags, 6), "unknown"@)
        } else {
            &&& p.risk@ == risk_of(flags)
            &&& findings_view(p.findings@) == findings_upto(flags, 8)
            &&& p.summary@ == summary_of(caps_upto(flags, 6), risk_of(flags))
        }
    }
}

fn mark_unknown(profile: &mut CapabilityProfile, capability: &str, detail: &str)
    ensures
        final(profile).risk@ == "unknown"@,
        findings_view(final(profile).findings@) == findings_view(old(profile).findings@).push(
            (capability@, detail@, "high"@),
        ),
        final(profile).summary@ == summary_of(caps_upto(profile_flags(*old(profile)), 6), "unknown"@),
        profile_flags(*final(profile)) == profile_flags(*old(profile)),
        final(profile).hosts == old(profile).hosts,
        final(profile).scope == old(profile).scope,
        final(profile).files_scanned == old(profile).files_scanned,
        final(profile).truncated == old(profile).truncated,
{
    profile.risk = text::string_from("unknown");
    let ghost before = profile.findings@;
    profile.findings.push(
        Finding {
            capability: text::string_from(capability),
            detail: text::string_from(detail),
            severity: text::string_from("high"),
        },
    );
    assert(findings_view(profile.findings@) =~= findings_view(before).push(
        (capability@, detail@, "high"@),
    ));
    finish_summary(profile);
}

/// The profile of a task whose entry files were walked into `c`. Without any
/// readable source file, or when the walk was cut short, the risk is
/// `unknown`.
pub fn profile_from_sources(c: SourceCollection) -> (p: CapabilityProfile)
    requires
        c.wf(),
    ensures
        sources_profiled(p, c),
        (c.files == 0 || c.truncated) ==> p.risk@ == "unknown"@,
{
    let combined = text::string_of(&c.combined);
    let mut profile = analyze(combined.as_str());
    if c.files == 0 {
        mark_unknown(&mut profile, "源码不可见", "入口可能是二进制、系统命令或不可读取文件");
        profile.scope = text::string_from("只检查了命令和参数；未找到可读取的文本源码");
        return profile;
    }
    profile.files_scanned = c.files;
    profile.truncated = c.truncated;
    let mut scope = text::chars_of("已读取 ");
    text::push_decimal(&mut scope, c.files as u64);
    text::append_str(&mut scope, " 个源码文件，共 ");
    let kb = (c.bytes + 1023) / 1024;
    text::push_decimal(&mut scope, kb as u64);
    text::append_str(&mut scope, " KB");
    profile.scope = text::string_of(&scope);
    if c.truncated {
        mark_unknown(&mut profile, "检查不完整", "项目超过 128 个文件或 2 MB 文本上限");
    }
    profile
}

pub open spec fn profile_flags_of_sources(c: SourceCollection) -> Seq<bool> {
    text_flags(text::unicode_lowercase(c.combined@))
}

/// A risk worked out from the flags is never `unknown`; only an incomplete
/// or missing inspection is.
pub proof fn lemma_risk_is_known(f: Seq<bool>)
    ensures
        risk_of(f) != "unknown"@,
{
    reveal_strlit("high");
    reveal_strlit("medium");
    reveal_strlit("low");
    reveal_strlit("minimal");
    reveal_strlit("unknown");
    assert("high"@.len() != "unknown"@.len());
    assert("medium"@.len() != "unknown"@.len());
    assert("low"@.len() != "unknown"@.len());
    assert("minimal"@[0] != "unknown"@[0]);
}

/// The risk rating of a scanned text, by the capabilities found: reading
/// credentials, dynamic code execution or autostart persistence rate
/// `high`; otherwise deleting files, or network access together with
/// writing files or running commands, rate `medium`; otherwise network
/// access, running commands or writing files rate `low`; nothing of that
/// rates `minimal`.
pub proof fn lemma_risk_levels(p: CapabilityProfile, source: Seq<char>)
    requires
        analyzed(p, source),
    ensures
        (p.risk@ == "high"@) <==> (p.reads_credentials || p.dynamic_exec || p.autostart),
        (p.risk@ == "medium"@) <==> (!(p.reads_credentials || p.dynamic_exec || p.autostart) && (
        p.deletes_files || (p.network && (p.writes_files || p.exec_command)))),
        (p.risk@ == "low"@) <==> (!(p.reads_credentials || p.dynamic_exec || p.autostart) && !(
        p.deletes_files || (p.network && (p.writes_files || p.exec_command))) && (p.network
            || p.exec_command || p.writes_files)),
        (p.risk@ == "minimal"@) <==> !(p.reads_credentials || p.dynamic_exec || p.autostart
            || p.deletes_files || p.network || p.exec_command || p.writes_files),
{
    reveal_strlit("high");
    reveal_strlit("medium");
    reveal_strlit("low");
    reveal_strlit("minimal");
    assert("high"@.len() == 4 && "medium"@.len() == 6 && "low"@.len() == 3 && "minimal"@.len() == 7);
    let f = profile_flags(p);
    assert(f[1] == p.writes_files && f[2] == p.deletes_files && f[3] == p.network && f[4] == p.exec_command);
    assert(f[5] == p.reads_credentials && f[6] == p.dynamic_exec && f[7] == p.autostart);
}

/// The order of risk ratings: minimal, low, medium, high.
pub open spec fn risk_rank(r: Seq<char>) -> int {
    if r == "high"@ {
        3
    } else if r == "medium"@ {
        2
    } else if r == "low"@ {
        1
    } else {
        0
    }
}

proof fn lemma_contains_in_extension(l1: Seq<char>, l2: Seq<char>, needle: Seq<char>)
    requires
        text::starts_with(l2, l1),
        text::contains(l1, needle),
    ensures
        text::contains(l2, needle),
{
    let i = choose|i: int| #[trigger] text::occurs_at(l1, needle, i);
    assert(l2.subrange(i, i + needle.len()) =~= l1.subrange(i, i + needle.len()));
    assert(text::occurs_at(l2, needle, i));
}

proof fn lemma_flags_grow(l1: Seq<char>, l2: Seq<char>)
    requires
        text::starts_with(l2, l1),
    ensures
        forall|k: int| 0 <= k < 8 && #[trigger] text_flags(l1)[k] ==> text_flags(l2)[k],
{
    assert forall|k: int| 0 <= k < 8 && #[trigger] text_flags(l1)[k] implies text_flags(l2)[k] by {
        let j = choose|j: int| 0 <= j < needles(k).len() && #[trigger] text::contains(l1, needles(k)[j]);
        lemma_contains_in_extension(l1, l2, needles(k)[j]);
        assert(text::contains(l2, needles(k)[j]));
    }
}

/// Scanning more text never finds less: where the lower-cased text of `s`
/// is a prefix of the lower-cased text of `s + t` (as for any text without
/// a final capital sigma that `t` would move), every capability found in
/// `s` is found in `s + t`, and the risk rating does not go down.
pub proof fn lemma_scan_grows(s: Seq<char>, t: Seq<char>, a: CapabilityProfile, b: CapabilityProfile)
    requires
        analyzed(a, s),
        analyzed(b, s + t),
        text::starts_with(text::unicode_lowercase(s + t), text::unicode_lowercase(s)),
    ensures
        forall|k: int| 0 <= k < 8 && #[trigger] profile_flags(a)[k] ==> profile_flags(b)[k],
        risk_rank(b.risk@) >= risk_rank(a.risk@),
{
    let f1 = text_flags(text::unicode_lowercase(s));
    let f2 = text_flags(text::unicode_lowercase(s + t));
    lemma_flags_grow(text::unicode_lowercase(s), text::unicode_lowercase(s + t));
    reveal_strlit("high");
    reveal_strlit("medium");
    reveal_strlit("low");
    reveal_strlit("minimal");
    assert("high"@.len() == 4 && "medium"@.len() == 6 && "low"@.len() == 3 && "minimal"@.len() == 7);
    assert(f1[1] ==> f2[1]);
    assert(f1[2] ==> f2[2]);
    assert(f1[3] ==> f2[3]);
    assert(f1[4] ==> f2[4]);
    assert(f1[5] ==> f2[5]);
    assert(f1[6] ==> f2[6]);
    assert(f1[7] ==> f2[7]);
}

/// "已检查命令行内嵌源码（N 个字符）".
pub open spec fn inline_scope(source: Seq<char>) -> Seq<char> {
    "已检查命令行内嵌源码（"@ + decimal(source.len()) + " 个字符）"@
}

/// Inspects the code a task actually runs: source given inline on the
/// command line, or else the files collected from its entry or project.
pub fn scan_task(command: &str, args: &Vec<String>, sources: SourceCollection) -> (p:
    CapabilityProfile)
    requires
        sources.wf(),
    ensures
        match inline_source_spec(command@, views(args@)) {
            Some(inline) => {
                &&& analyzed(p, inline)
                &&& p.scope@ == inline_scope(inline)
                &&& p.files_scanned == 0
                &&& !p.truncated
            },
            None => {
                &&& sources_profiled(p, sources)
                &&& p.files_scanned <= MAX_SOURCE_FILES
                &&& (p.risk@ == "unknown"@ <==> (p.files_scanned == 0 || p.truncated))
            },
        },
{
    proof {
        lemma_risk_is_known(profile_flags_of_sources(sources));
    }
    match inline_source(command, args) {
        Some(source) => {
            let mut profile = analyze(source.as_str());
            let chars = text::chars_of(source.as_str());
            let mut scope = text::chars_of("已检查命令行内嵌源码（");
            text::push_decimal(&mut scope, chars.len() as u64);
            text::append_str(&mut scope, " 个字符）");
            profile.scope = text::string_of(&scope);
            profile
        },
        None => profile_from_sources(sources),
    }
}
} // verus!

//! The tasks Mosaic ships with and the start-up migrations of the database:
//! the example tasks, the built-in CLIProxyAPI plugin and the repairs that
//! keep existing databases current.
use vstd::prelude::*;

use crate::library;
use crate::model::{BotChannel, BotPlatform, Db, DisplayForm, Lifecycle, Task, TaskKind, Trigger};
use crate::text;
use crate::text::views;
use crate::urls::ov;

verus! {

/// Hacker News top stories, read with Node's global `fetch`.
pub const HN_SCRIPT: &'static str = r#"(async()=>{const ids=(await (await fetch('https://hacker-news.firebaseio.com/v0/topstories.json')).json()).slice(0,8);const items=[];for(const id of ids){const s=await (await fetch('https://hacker-news.firebaseio.com/v0/item/'+id+'.json')).json();if(s&&s.title)items.push({title:s.title,source:'Hacker News'});}console.log(JSON.stringify({summary:{headline:items.length+' 条热门',count:items.length},card:{type:'news',title:'Hacker News',items},items:items.map(i=>({title:i.title,subtitle:'HN',at:new Date().toISOString()}))}));})().catch(e=>{console.error(e);process.exit(1);});"#;

/// Bitcoin, Ethereum and Solana prices from CoinGecko.
pub const CRYPTO_SCRIPT: &'static str = r#"(async()=>{const d=await (await fetch('https://api.coingecko.com/api/v3/simple/price?ids=bitcoin,ethereum,solana&vs_currencies=usd')).json();const m=[{label:'BTC',value:'$'+(d.bitcoin?.usd??'-')},{label:'ETH',value:'$'+(d.ethereum?.usd??'-')},{label:'SOL',value:'$'+(d.solana?.usd??'-')}];console.log(JSON.stringify({summary:{headline:'实时行情',count:m.length},card:{type:'metric',title:'加密行情',metrics:m},items:[{title:'行情更新',at:new Date().toISOString()}]}));})().catch(e=>{console.error(e);process.exit(1);});"#;

/// The current weather in Beijing from Open-Meteo.
pub const WEATHER_SCRIPT: &'static str = r#"(async()=>{const r=await (await fetch('https://api.open-meteo.com/v1/forecast?latitude=39.9&longitude=116.4&current=temperature_2m,wind_speed_10m,relative_humidity_2m')).json();const c=r.current||{};const m=[{label:'温度',value:(c.temperature_2m??'-')+'°C'},{label:'湿度',value:(c.relative_humidity_2m??'-')+'%'},{label:'风速',value:(c.wind_speed_10m??'-')+' km/h'}];console.log(JSON.stringify({summary:{headline:'北京天气'},card:{type:'metric',title:'天气 · 北京',metrics:m},items:[{title:'天气更新',at:new Date().toISOString()}]}));})().catch(e=>{console.error(e);process.exit(1);});"#;

/// A quote of the day from Hitokoto.
pub const QUOTE_SCRIPT: &'static str = r#"(async()=>{const d=await (await fetch('https://v1.hitokoto.cn/')).json();const t=d.hitokoto+(d.from?(' —— '+d.from):'');console.log(JSON.stringify({summary:{headline:'每日一言'},card:{type:'markdown',title:'每日一言',text:t},items:[{title:d.hitokoto,subtitle:d.from||'',at:new Date().toISOString()}]}));})().catch(e=>{console.error(e);process.exit(1);});"#;

/// The id of the built-in CLIProxyAPI plugin task.
pub const CLI_PROXY_TASK_ID: &'static str = "plugin-cliproxyapi";

/// A Node example task: `node -e <script>`, on the dashboard, switched on,
/// with a one-minute timeout.
pub open spec fn node_task_spec(
    t: Task,
    id: Seq<char>,
    name: Seq<char>,
    script: Seq<char>,
    every_secs: u64,
    display: DisplayForm,
    created_at: Seq<char>,
) -> bool {
    &&& t.id@ == id
    &&& t.nickname@ == name
    &&& t.command@ == "node"@
    &&& t.kind == TaskKind::Script
    &&& views(t.args@) == seq!["-e"@, script]
    &&& t.cwd is None
    &&& t.trigger == Trigger::Interval { every_secs }
    &&& t.display == display
    &&& t.lifecycle == Lifecycle::Ephemeral
    &&& t.active
    &&& t.enabled
    &&& t.timeout_secs == 60
    &&& t.push_channel is None
    &&& t.on_dashboard
    &&& t.order == 0
    &&& t.col_span == 1
    &&& t.row_span == 1
    &&& t.output_dir is None
    &&& t.stdin is None
    &&& t.community is None
    &&& t.created_at@ == created_at
}

pub fn node_task(
    id: &str,
    name: &str,
    script: &str,
    every_secs: u64,
    display: DisplayForm,
    created_at: &str,
) -> (t: Task)
    ensures
        node_task_spec(t, id@, name@, script@, every_secs, display, created_at@),
{
    let args = vec![text::string_from("-e"), text::string_from(script)];
    assert(views(args@) =~= seq!["-e"@, script@]);
    Task {
        id: text::string_from(id),
        nickname: text::string_from(name),
        command: text::string_from("node"),
        kind: TaskKind::Script,
        args,
        cwd: None,
        trigger: Trigger::Interval { every_secs },
        display,
        lifecycle: Lifecycle::Ephemeral,
        active: true,
        enabled: true,
        timeout_secs: 60,
        push_channel: None,
        on_dashboard: true,
        order: 0,
        col_span: 1,
        row_span: 1,
        output_dir: None,
        stdin: None,
        community: None,
        created_at: text::string_from(created_at),
    }
}

/// The first examples: Hacker News every 30 minutes, crypto prices every
/// 10 minutes.
pub fn example_tasks_v1(created_at: &str) -> (res: Vec<Task>)
    ensures
        res@.len() == 2,
        node_task_spec(res@[0], "example-hn"@, "Hacker News 热门"@, HN_SCRIPT@, 1800, DisplayForm::Card, created_at@),
        node_task_spec(res@[1], "example-crypto"@, "加密行情"@, CRYPTO_SCRIPT@, 600, DisplayForm::Metric, created_at@),
{
    vec![
        node_task("example-hn", "Hacker News 热门", HN_SCRIPT, 1800, DisplayForm::Card, created_at),
        node_task("example-crypto", "加密行情", CRYPTO_SCRIPT, 600, DisplayForm::Metric, created_at),
    ]
}

/// The second examples: Beijing weather hourly, a quote every two hours.
pub fn example_tasks_v2(created_at: &str) -> (res: Vec<Task>)
    ensures
        res@.len() == 2,
        node_task_spec(res@[0], "example-weather"@, "北京天气"@, WEATHER_SCRIPT@, 3600, DisplayForm::Metric, created_at@),
        node_task_spec(res@[1], "example-quote"@, "每日一言"@, QUOTE_SCRIPT@, 7200, DisplayForm::Card, created_at@),
{
    vec![
        node_task("example-weather", "北京天气", WEATHER_SCRIPT, 3600, DisplayForm::Metric, created_at),
        node_task("example-quote", "每日一言", QUOTE_SCRIPT, 7200, DisplayForm::Card, created_at),
    ]
}

/// The built-in CLIProxyAPI plugin: a resident service, in the library but
/// switched off, started from `command` in `cwd`.
pub fn builtin_plugins_v3(command: String, cwd: Option<String>, created_at: &str) -> (res: Vec<Task>)
    ensures
        res@.len() == 1,
        res@[0].id@ == CLI_PROXY_TASK_ID@,
        res@[0].nickname@ == "CLIProxyAPI"@,
        res@[0].command == command,
        res@[0].kind == TaskKind::Plugin,
        res@[0].args@.len() == 0,
        res@[0].cwd == cwd,
        res@[0].trigger is Manual,
        res@[0].display == DisplayForm::Card,
        res@[0].lifecycle == Lifecycle::Resident,
        res@[0].active,
        !res@[0].enabled,
        res@[0].timeout_secs == 0,
        res@[0].push_channel is None,
        !res@[0].on_dashboard,
        res@[0].order == 0,
        res@[0].col_span == 1,
        res@[0].row_span == 1,
        res@[0].output_dir is None,
        res@[0].stdin is None,
        res@[0].community is None,
        res@[0].created_at@ == created_at@,
{
    vec![
        Task {
            id: text::string_from(CLI_PROXY_TASK_ID),
            nickname: text::string_from("CLIProxyAPI"),
            command,
            kind: TaskKind::Plugin,
            args: Vec::new(),
            cwd,
            trigger: Trigger::Manual,
            display: DisplayForm::Card,
            lifecycle: Lifecycle::Resident,
            active: true,
            enabled: false,
            timeout_secs: 0,
            push_channel: None,
            on_dashboard: false,
            order: 0,
            col_span: 1,
            row_span: 1,
            output_dir: None,
            stdin: None,
            community: None,
            created_at: text::string_from(created_at),
        },
    ]
}

/// The fabricated demo tasks of the first releases.
pub open spec fn is_legacy_mock_spec(t: Task) -> bool {
    &&& (t.nickname@ == "系统快照"@ || t.nickname@ == "示例新闻"@ || t.nickname@ == "每日提示"@)
    &&& t.command@ == "node"@
    &&& t.args@.len() > 0
    &&& t.args@[0]@ == "-e"@
}

pub fn is_legacy_mock(t: &Task) -> (res: bool)
    ensures
        res == is_legacy_mock_spec(*t),
{
    let name = t.nickname.as_str();
    (text::str_eq(name, "系统快照") || text::str_eq(name, "示例新闻") || text::str_eq(name, "每日提示"))
        && text::str_eq(t.command.as_str(), "node") && t.args.len() > 0 && text::str_eq(
        t.args[0].as_str(),
        "-e",
    )
}

// ---------------------------------------------------------------------------
// Locating the CLIProxyAPI executable
// ---------------------------------------------------------------------------

/// A dotted version of unsigned numbers, like `7.10.2`; `None` where a part
/// is not a number.
pub open spec fn numeric_version_spec(v: Seq<char>) -> Option<Seq<u64>> {
    let parts = text::split_by(v, text::sep_either('.', '.'));
    if forall|i: int| 0 <= i < parts.len() ==> text::parse_unsigned(#[trigger] parts[i], u64::MAX as nat) is Some {
        Some(Seq::new(parts.len(), |i: int| text::parse_unsigned(parts[i], u64::MAX as nat)->Some_0 as u64))
    } else {
        None
    }
}

pub fn numeric_version(value: &str) -> (res: Option<Vec<u64>>)
    ensures
        match res {
            Some(v) => numeric_version_spec(value@) == Some(v@),
            None => numeric_version_spec(value@) is None,
        },
{
    let chars = text::chars_of(value);
    let parts = text::split_on(&chars, '.', '.');
    let ghost ps = text::char_views(parts@);
    let mut out: Vec<u64> = Vec::new();
    let mut i: usize = 0;
    while i < parts.len()
        invariant
            i <= parts@.len(),
            ps == text::char_views(parts@),
            ps == text::split_by(value@, text::sep_either('.', '.')),
            out@.len() == i,
            forall|k: int| 0 <= k < i ==> text::parse_unsigned(#[trigger] ps[k], u64::MAX as nat) is Some,
            forall|k: int| 0 <= k < i ==> out@[k] == text::parse_unsigned(#[trigger] ps[k], u64::MAX as nat)->Some_0 as u64,
        decreases parts.len() - i,
    {
        match text::parse_unsigned_chars(&parts[i], u64::MAX) {
            Some(n) => out.push(n),
            None => {
                assert(text::parse_unsigned(ps[i as int], u64::MAX as nat) is None);
                return None;
            },
        }
        i += 1;
    }
    assert(out@ =~= Seq::new(ps.len(), |i: int| text::parse_unsigned(ps[i], u64::MAX as nat)->Some_0 as u64));
    Some(out)
}

/// The order of `Vec<u64>`: lexicographic, a proper prefix first.
pub open spec fn version_lt(a: Seq<u64>, b: Seq<u64>) -> bool
    decreases a.len(),
{
    if a.len() == 0 {
        b.len() > 0
    } else if b.len() == 0 {
        false
    } else if a[0] != b[0] {
        a[0] < b[0]
    } else {
        version_lt(a.drop_first(), b.drop_first())
    }
}

pub fn version_less(a: &Vec<u64>, b: &Vec<u64>) -> (res: bool)
    ensures
        res == version_lt(a@, b@),
{
    let mut i: usize = 0;
    assert(a@.skip(0) =~= a@);
    assert(b@.skip(0) =~= b@);
    while i < a.len() && i < b.len() && a[i] == b[i]
        invariant
            i <= a@.len(),
            i <= b@.len(),
            version_lt(a@, b@) == version_lt(a@.skip(i as int), b@.skip(i as int)),
        decreases a.len() - i,
    {
        assert(a@.skip(i as int).drop_first() =~= a@.skip(i + 1));
        assert(b@.skip(i as int).drop_first() =~= b@.skip(i + 1));
        assert(a@.skip(i as int)[0] == a@[i as int]);
        assert(b@.skip(i as int)[0] == b@[i as int]);
        i += 1;
    }
    if i < a.len() && i < b.len() {
        assert(a@.skip(i as int)[0] == a@[i as int]);
        assert(b@.skip(i as int)[0] == b@[i as int]);
        a[i] < b[i]
    } else {
        i == a.len() && i < b.len()
    }
}

/// A Scoop version directory: its name and whether it holds the executable.
#[derive(Debug, Clone)]
pub struct VersionDir {
    pub name: String,
    pub has_executable: bool,
}

/// A directory that can be launched from: not the `current` junction (in
/// any case), named by a numeric version, holding the executable.
pub open spec fn eligible(d: VersionDir) -> bool {
    &&& text::ascii_lower(d.name@) != "current"@
    &&& numeric_version_spec(d.name@) is Some
    &&& d.has_executable
}

/// The newest eligible version: no eligible directory has a higher
/// version, and none listed after it has an equal one.
pub open spec fn is_latest(dirs: Seq<VersionDir>, k: int) -> bool {
    &&& 0 <= k < dirs.len()
    &&& eligible(dirs[k])
    &&& forall|j: int|
        0 <= j < dirs.len() && eligible(#[trigger] dirs[j]) ==> !version_lt(
            numeric_version_spec(dirs[k].name@)->Some_0,
            numeric_version_spec(dirs[j].name@)->Some_0,
        )
    &&& forall|j: int|
        k < j < dirs.len() && eligible(#[trigger] dirs[j]) ==> version_lt(
            numeric_version_spec(dirs[j].name@)->Some_0,
            numeric_version_spec(dirs[k].name@)->Some_0,
        )
}

pub proof fn lemma_version_lt_total(a: Seq<u64>, b: Seq<u64>)
    ensures
        version_lt(a, b) || version_lt(b, a) || a == b,
        !(version_lt(a, b) && version_lt(b, a)),
        !version_lt(a, a),
    decreases a.len(),
{
    if a.len() > 0 && b.len() > 0 && a[0] == b[0] {
        lemma_version_lt_total(a.drop_first(), b.drop_first());
        if a.drop_first() == b.drop_first() {
            assert forall|i: int| 0 <= i < a.len() implies a[i] == b[i] by {
                if i > 0 {
                    assert(a[i] == a.drop_first()[i - 1]);
                    assert(b[i] == b.drop_first()[i - 1]);
                }
            }
            assert(a =~= b);
        }
    }
    if a.len() > 0 {
        lemma_version_lt_total(a.drop_first(), a.drop_first());
    }
}

pub proof fn lemma_version_lt_trans(a: Seq<u64>, b: Seq<u64>, c: Seq<u64>)
    requires
        version_lt(a, b),
        version_lt(b, c),
    ensures
        version_lt(a, c),
    decreases a.len(),
{
    if a.len() > 0 && b.len() > 0 && c.len() > 0 && a[0] == b[0] && b[0] == c[0] {
        lemma_version_lt_trans(a.drop_first(), b.drop_first(), c.drop_first());
    }
}

/// Picks the directory of the newest installed version, as sorting by
/// version and taking the last does.
pub fn latest_version(dirs: &Vec<VersionDir>) -> (res: Option<usize>)
    ensures
        match res {
            Some(k) => is_latest(dirs@, k as int),
            None => forall|j: int| 0 <= j < dirs@.len() ==> !eligible(#[trigger] dirs@[j]),
        },
{
    let mut best: Option<usize> = None;
    let mut best_v: Vec<u64> = Vec::new();
    let mut i: usize = 0;
    while i < dirs.len()
        invariant
            i <= dirs@.len(),
            match best {
                Some(k) => {
                    &&& k < i
                    &&& eligible(dirs@[k as int])
                    &&& numeric_version_spec(dirs@[k as int].name@) == Some(best_v@)
                    &&& forall|j: int|
                        0 <= j < i && eligible(#[trigger] dirs@[j]) ==> !version_lt(
                            best_v@,
                            numeric_version_spec(dirs@[j].name@)->Some_0,
                        )
                    &&& forall|j: int|
                        k < j < i && eligible(#[trigger] dirs@[j]) ==> version_lt(
                            numeric_version_spec(dirs@[j].name@)->Some_0,
                            best_v@,
                        )
                },
                None => forall|j: int| 0 <= j < i ==> !eligible(#[trigger] dirs@[j]),
            },
        decreases dirs.len() - i,
    {
        let d = &dirs[i];
        let name = text::chars_of(d.name.as_str());
        let lower = text::ascii_lowercase(&name);
        if !text::eq_str(&lower, "current") && d.has_executable {
            match numeric_version(d.name.as_str()) {
                Some(v) => {
                    let better = match best {
                        Some(_) => !version_less(&v, &best_v),
                        None => true,
                    };
                    proof {
                        lemma_version_lt_total(v@, best_v@);
                    }
                    if better {
                        proof {
                            assert forall|j: int| 0 <= j < i + 1 && eligible(#[trigger] dirs@[j]) implies !version_lt(
                                v@,
                                numeric_version_spec(dirs@[j].name@)->Some_0,
                            ) by {
                                if j < i && best is Some {
                                    let w = numeric_version_spec(dirs@[j].name@)->Some_0;
                                    lemma_version_lt_total(w, best_v@);
                                    lemma_version_lt_total(v@, w);
                                    if version_lt(v@, w) {
                                        if version_lt(best_v@, v@) {
                                            lemma_version_lt_trans(best_v@, v@, w);
                                        }
                                    }
                                }
                                if j == i {
                                    lemma_version_lt_total(v@, v@);
                                }
                            }
                        }
                        best = Some(i);
                        best_v = v;
                    } else {
                        proof {
                            assert forall|j: int| 0 <= j < i + 1 && eligible(#[trigger] dirs@[j]) implies !version_lt(
                                best_v@,
                                numeric_version_spec(dirs@[j].name@)->Some_0,
                            ) by {
                                if j == i {
                                    lemma_version_lt_total(best_v@, v@);
                                }
                            }
                        }
                    }
                },
                None => {},
            }
        }
        i += 1;
    }
    best
}

/// A path without the verbatim `\\?\` prefix that canonical Windows paths
/// carry.
pub open spec fn without_verbatim(path: Seq<char>) -> Seq<char> {
    if text::starts_with(path, "\\\\?\\"@) {
        path.skip(4)
    } else {
        path
    }
}

pub fn strip_verbatim(path: &str) -> (res: String)
    ensures
        res@ == without_verbatim(path@),
{
    let v = text::chars_of(path);
    if text::starts_with_str(&v, "\\\\?\\") {
        proof {
            reveal_strlit("\\\\?\\");
        }
        let mut out: Vec<char> = Vec::new();
        let mut i: usize = 4;
        while i < v.len()
            invariant
                4 <= i <= v@.len(),
                out@ == v@.subrange(4, i as int),
            decreases v.len() - i,
        {
            out.push(v[i]);
            assert(v@.subrange(4, i + 1) =~= v@.subrange(4, i as int).push(v@[i as int]));
            i += 1;
        }
        assert(out@ =~= v@.skip(4));
        text::string_of(&out)
    } else {
        text::string_from(path)
    }
}

/// The command to fall back on: the bare executable name, looked up on the
/// search path.
pub fn default_cli_proxy_command(windows: bool) -> (res: String)
    ensures
        windows ==> res@ == "cli-proxy-api.exe"@,
        !windows ==> res@ == "cli-proxy-api"@,
{
    if windows {
        text::string_from("cli-proxy-api.exe")
    } else {
        text::string_from("cli-proxy-api")
    }
}

/// A command the location repair may replace: one that goes through
/// Scoop's `current` junction, or the bare default name.
pub open spec fn repairable(command: Seq<char>) -> bool {
    let normalized = text::ascii_lower(command).map_values(|c: char| if c == '/' { '\\' } else { c });
    ||| text::contains(normalized, "\\scoop\\apps\\cliproxyapi\\current\\"@)
    ||| normalized == "cli-proxy-api.exe"@
    ||| normalized == "cli-proxy-api"@
}

/// The tasks after the location repair: the built-in plugin, if its
/// command is repairable and differs from the located one, gets the located
/// command and working directory.
pub open spec fn repaired(tasks: Seq<Task>, command: String, cwd: Option<String>) -> Seq<Task> {
    match library::task_index(tasks, CLI_PROXY_TASK_ID@) {
        Some(k) => if repairable(tasks[k].command@) && !(tasks[k].command@ == command@ && ov(tasks[k].cwd)
            == ov(cwd)) {
            tasks.update(k, Task { command, cwd, ..tasks[k] })
        } else {
            tasks
        },
        None => tasks,
    }
}

/// Keeps the built-in plugin on the located executable (`command`, `cwd`)
/// unless the user customised its command. Returns whether it changed.
pub fn repair_builtin_plugin_locations(tasks: &mut Vec<Task>, command: String, cwd: Option<String>) -> (changed: bool)
    ensures
        final(tasks)@ == repaired(old(tasks)@, command, cwd),
        changed == (final(tasks)@ != old(tasks)@),
{
    let k = match library::find_task(tasks, CLI_PROXY_TASK_ID) {
        Some(k) => k,
        None => return false,
    };
    let lower = text::ascii_lowercase(&text::chars_of(tasks[k].command.as_str()));
    let mut normalized: Vec<char> = Vec::new();
    let mut i: usize = 0;
    while i < lower.len()
        invariant
            i <= lower@.len(),
            normalized@ == lower@.take(i as int).map_values(|c: char| if c == '/' { '\\' } else { c }),
        decreases lower.len() - i,
    {
        let c = lower[i];
        normalized.push(if c == '/' { '\\' } else { c });
        assert(lower@.take(i + 1) =~= lower@.take(i as int).push(c));
        assert(normalized@ =~= lower@.take(i + 1).map_values(|c: char| if c == '/' { '\\' } else { c }));
        i += 1;
    }
    assert(lower@.take(lower@.len() as int) =~= lower@);
    let junction = text::contains_str(&normalized, "\\scoop\\apps\\cliproxyapi\\current\\");
    let default_name = text::eq_str(&normalized, "cli-proxy-api.exe") || text::eq_str(&normalized, "cli-proxy-api");
    if !junction && !default_name {
        return false;
    }
    let same_cwd = match (&tasks[k].cwd, &cwd) {
        (Some(a), Some(b)) => text::str_eq(a.as_str(), b.as_str()),
        (None, None) => true,
        _ => false,
    };
    if text::str_eq(tasks[k].command.as_str(), command.as_str()) && same_cwd {
        return false;
    }
    let mut t = tasks.remove(k);
    let ghost before = t;
    t.command = command;
    t.cwd = cwd;
    tasks.insert(k, t);
    proof {
        assert(tasks@ =~= old(tasks)@.update(k as int, Task { command, cwd, ..before }));
        assert(tasks@[k as int].command@ != old(tasks)@[k as int].command@ || ov(tasks@[k as int].cwd) != ov(old(tasks)@[k as int].cwd));
        assert(tasks@[k as int] != old(tasks)@[k as int]);
    }
    true
}

/// Repairing twice is repairing once.
pub proof fn lemma_repair_idempotent(tasks: Seq<Task>, command: String, cwd: Option<String>)
    ensures
        repaired(repaired(tasks, command, cwd), command, cwd) == repaired(tasks, command, cwd),
{
    let once = repaired(tasks, command, cwd);
    library::lemma_task_index(tasks, CLI_PROXY_TASK_ID@);
    match library::task_index(tasks, CLI_PROXY_TASK_ID@) {
        Some(k) => {
            if repairable(tasks[k].command@) && !(tasks[k].command@ == command@ && ov(tasks[k].cwd) == ov(cwd)) {
                assert(once[k].id@ == CLI_PROXY_TASK_ID@);
                assert forall|j: int| 0 <= j < k implies once[j].id@ != CLI_PROXY_TASK_ID@ by {}
                lemma_first_index_same(tasks, once, k);
            } else {
            }
        },
        None => {},
    }
}

proof fn lemma_first_index_same(a: Seq<Task>, b: Seq<Task>, k: int)
    requires
        a.len() == b.len(),
        0 <= k < a.len(),
        library::task_index(a, CLI_PROXY_TASK_ID@) == Some(k),
        b[k].id@ == CLI_PROXY_TASK_ID@,
        forall|j: int| 0 <= j < k ==> b[j] == a[j],
    ensures
        library::task_index(b, CLI_PROXY_TASK_ID@) == Some(k),
    decreases k,
{
    if k > 0 {
        library::lemma_task_index(a, CLI_PROXY_TASK_ID@);
        assert(a[0].id@ != CLI_PROXY_TASK_ID@);
        lemma_first_index_same(a.drop_first(), b.drop_first(), k - 1);
    }
}

// ---------------------------------------------------------------------------
// Start-up migrations
// ---------------------------------------------------------------------------

pub open spec fn has_id(tasks: Seq<Task>, id: Seq<char>) -> bool {
    exists|i: int| 0 <= i < tasks.len() && #[trigger] tasks[i].id@ == id
}

/// The seed tasks whose id is not taken yet, appended in order.
pub open spec fn add_missing(tasks: Seq<Task>, seeds: Seq<Task>) -> Seq<Task>
    decreases seeds.len(),
{
    if seeds.len() == 0 {
        tasks
    } else {
        let acc = add_missing(tasks, seeds.drop_last());
        if has_id(acc, seeds.last().id@) {
            acc
        } else {
            acc.push(seeds.last())
        }
    }
}

/// The library/switch split: a task is in the library when it was
/// switched on (the built-in plugin always is); the others are switched
/// off and taken off the dashboard.
pub open spec fn activated(t: Task) -> Task {
    if t.enabled || t.id@ == CLI_PROXY_TASK_ID@ {
        Task { active: true, ..t }
    } else {
        Task { active: false, enabled: false, on_dashboard: false, ..t }
    }
}

/// Robots of platforms without a desktop adapter never start on their own.
pub open spec fn shelved(b: BotChannel) -> BotChannel {
    if b.platform != BotPlatform::Qq {
        BotChannel { enabled: false, ..b }
    } else {
        b
    }
}

/// What the migrations read and write.
pub struct MigrationView {
    pub tasks: Seq<Task>,
    pub bots: Seq<BotChannel>,
    pub sources: Seq<Seq<char>>,
    pub done: Seq<bool>,
}

pub open spec fn migration_view(db: Db) -> MigrationView {
    MigrationView {
        tasks: db.tasks@,
        bots: db.bot_channels@,
        sources: views(db.community.sources@),
        done: seq![db.migrated_v1, db.migrated_v2, db.migrated_v3, db.migrated_v4, db.migrated_v5, db.migrated_v6],
    }
}

/// The start-up migrations, each applied once (its marker in `done` is then
/// set), followed by the location repair, which runs on every start.
pub open spec fn migrate_spec(
    st: MigrationView,
    v1: Seq<Task>,
    v2: Seq<Task>,
    v3: Seq<Task>,
    official: Seq<char>,
    command: String,
    cwd: Option<String>,
) -> MigrationView {
    let t1 = if !st.done[0] {
        add_missing(st.tasks.filter(|t: Task| !is_legacy_mock_spec(t)), v1)
    } else {
        st.tasks
    };
    let t2 = if !st.done[1] {
        add_missing(t1, v2)
    } else {
        t1
    };
    let t3 = if !st.done[2] {
        add_missing(t2, v3)
    } else {
        t2
    };
    let t4 = if !st.done[3] {
        t3.map_values(|t: Task| activated(t))
    } else {
        t3
    };
    MigrationView {
        tasks: repaired(t4, command, cwd),
        bots: if !st.done[4] {
            st.bots.map_values(|b: BotChannel| shelved(b))
        } else {
            st.bots
        },
        sources: if !st.done[5] && st.sources.len() == 0 {
            seq![official]
        } else {
            st.sources
        },
        done: seq![true, true, true, true, true, true],
    }
}

fn id_taken(tasks: &Vec<Task>, id: &str) -> (res: bool)
    ensures
        res == has_id(tasks@, id@),
{
    match library::find_task(tasks, id) {
        Some(k) => {
            assert(tasks@[k as int].id@ == id@) by {
                library::lemma_task_index(tasks@, id@);
            }
            true
        },
        None => {
            proof {
                library::lemma_task_index(tasks@, id@);
            }
            false
        },
    }
}

fn add_missing_exec(tasks: &mut Vec<Task>, seeds: Vec<Task>)
    ensures
        final(tasks)@ == add_missing(old(tasks)@, seeds@),
{
    let ghost orig = seeds@;
    let mut rest = seeds;
    let mut i: usize = 0;
    assert(orig.take(0) =~= Seq::<Task>::empty());
    assert(orig.skip(0) =~= orig);
    assert(orig.len() == rest.len());
    while rest.len() > 0
        invariant
            i + rest@.len() == orig.len(),
            orig.len() <= usize::MAX,
            rest@ == orig.skip(i as int),
            tasks@ == add_missing(old(tasks)@, orig.take(i as int)),
        decreases rest.len(),
    {
        let t = rest.remove(0);
        assert(t == orig[i as int]);
        assert(orig.take(i + 1).drop_last() =~= orig.take(i as int));
        assert(rest@ =~= orig.skip(i + 1));
        if !id_taken(tasks, t.id.as_str()) {
            tasks.push(t);
        }
        i += 1;
    }
    assert(orig.take(orig.len() as int) =~= orig);
}

fn drop_legacy(tasks: &mut Vec<Task>)
    ensures
        final(tasks)@ == old(tasks)@.filter(|t: Task| !is_legacy_mock_spec(t)),
{
    let ghost keep = |t: Task| !is_legacy_mock_spec(t);
    let mut rest: Vec<Task> = Vec::new();
    std::mem::swap(tasks, &mut rest);
    let ghost orig = rest@;
    assert(orig.len() == rest.len());
    let mut i: usize = 0;
    proof {
        reveal(Seq::filter);
        assert(orig.take(0) =~= Seq::<Task>::empty());
    }
    while rest.len() > 0
        invariant
            i + rest@.len() == orig.len(),
            orig.len() <= usize::MAX,
            rest@ == orig.skip(i as int),
            keep == |t: Task| !is_legacy_mock_spec(t),
            tasks@ == orig.take(i as int).filter(keep),
        decreases rest.len(),
    {
        let t = rest.remove(0);
        proof {
            assert(t == orig[i as int]);
            assert(orig.take(i + 1) =~= orig.take(i as int).push(orig[i as int]));
            assert(rest@ =~= orig.skip(i + 1));
            text::lemma_filter_push(orig.take(i as int), keep, orig[i as int]);
        }
        if !is_legacy_mock(&t) {
            tasks.push(t);
        }
        i += 1;
    }
    assert(orig.take(orig.len() as int) =~= orig);
}

fn activate_all(tasks: &mut Vec<Task>)
    ensures
        final(tasks)@ == old(tasks)@.map_values(|t: Task| activated(t)),
{
    let mut i: usize = 0;
    while i < tasks.len()
        invariant
            i <= tasks@.len(),
            tasks@.len() == old(tasks)@.len(),
            forall|k: int| 0 <= k < i ==> #[trigger] tasks@[k] == activated(old(tasks)@[k]),
            forall|k: int| i <= k < tasks@.len() ==> #[trigger] tasks@[k] == old(tasks)@[k],
        decreases tasks.len() - i,
    {
        let mut t = tasks.remove(i);
        t.active = t.enabled || text::str_eq(t.id.as_str(), CLI_PROXY_TASK_ID);
        if !t.active {
            t.enabled = false;
            t.on_dashboard = false;
        }
        tasks.insert(i, t);
        i += 1;
    }
    assert(tasks@ =~= old(tasks)@.map_values(|t: Task| activated(t)));
}

fn shelve_all(bots: &mut Vec<BotChannel>)
    ensures
        final(bots)@ == old(bots)@.map_values(|b: BotChannel| shelved(b)),
{
    let mut i: usize = 0;
    while i < bots.len()
        invariant
            i <= bots@.len(),
            bots@.len() == old(bots)@.len(),
            forall|k: int| 0 <= k < i ==> #[trigger] bots@[k] == shelved(old(bots)@[k]),
            forall|k: int| i <= k < bots@.len() ==> #[trigger] bots@[k] == old(bots)@[k],
        decreases bots.len() - i,
    {
        if bots[i].platform != BotPlatform::Qq {
            let mut b = bots.remove(i);
            b.enabled = false;
            bots.insert(i, b);
        }
        i += 1;
    }
    assert(bots@ =~= old(bots)@.map_values(|b: BotChannel| shelved(b)));
}

/// Brings a database loaded at start-up up to date: the example tasks and
/// the built-in plugin (`v1`, `v2`, `v3`, as made by the seed functions),
/// the library/switch split, the shelving of unsupported robots and the
/// official community source, each once; then the location repair of the
/// built-in plugin (`command`, `cwd`: where its executable was found).
pub fn migrate(db: &mut Db, v1: Vec<Task>, v2: Vec<Task>, v3: Vec<Task>, command: String, cwd: Option<String>)
    ensures
        migration_view(*final(db)) == migrate_spec(
            migration_view(*old(db)),
            v1@,
            v2@,
            v3@,
            crate::model::OFFICIAL_COMMUNITY_SOURCE@,
            command,
            cwd,
        ),
        final(db).executions == old(db).executions,
        final(db).results == old(db).results,
        final(db).notifications == old(db).notifications,
        final(db).providers == old(db).providers,
        final(db).active_provider == old(db).active_provider,
        final(db).popo == old(db).popo,
        final(db).migrated_v7 == old(db).migrated_v7,
{
    let ghost st = migration_view(*db);
    if !db.migrated_v1 {
        drop_legacy(&mut db.tasks);
        add_missing_exec(&mut db.tasks, v1);
        db.migrated_v1 = true;
    }
    if !db.migrated_v2 {
        add_missing_exec(&mut db.tasks, v2);
        db.migrated_v2 = true;
    }
    if !db.migrated_v3 {
        add_missing_exec(&mut db.tasks, v3);
        db.migrated_v3 = true;
    }
    if !db.migrated_v4 {
        activate_all(&mut db.tasks);
        db.migrated_v4 = true;
    }
    if !db.migrated_v5 {
        shelve_all(&mut db.bot_channels);
        db.migrated_v5 = true;
    }
    if !db.migrated_v6 {
        if db.community.sources.len() == 0 {
            db.community.sources.push(crate::model::official_community_source());
            assert(views(db.community.sources@) =~= seq![crate::model::OFFICIAL_COMMUNITY_SOURCE@]);
        }
        db.migrated_v6 = true;
    }
    repair_builtin_plugin_locations(&mut db.tasks, command, cwd);
    assert(migration_view(*db).done =~= seq![true, true, true, true, true, true]);
}

/// The migrations are idempotent: on a migrated database, running them
/// again (with the same seeds and the same located executable) changes
/// nothing.
pub proof fn lemma_migrate_twice(
    st: MigrationView,
    v1: Seq<Task>,
    v2: Seq<Task>,
    v3: Seq<Task>,
    official: Seq<char>,
    command: String,
    cwd: Option<String>,
)
    requires
        st.done.len() == 6,
    ensures
        migrate_spec(migrate_spec(st, v1, v2, v3, official, command, cwd), v1, v2, v3, official, command, cwd)
            == migrate_spec(st, v1, v2, v3, official, command, cwd),
{
    let once = migrate_spec(st, v1, v2, v3, official, command, cwd);
    let t1 = if !st.done[0] {
        add_missing(st.tasks.filter(|t: Task| !is_legacy_mock_spec(t)), v1)
    } else {
        st.tasks
    };
    let t2 = if !st.done[1] {
        add_missing(t1, v2)
    } else {
        t1
    };
    let t3 = if !st.done[2] {
        add_missing(t2, v3)
    } else {
        t2
    };
    let t4 = if !st.done[3] {
        t3.map_values(|t: Task| activated(t))
    } else {
        t3
    };
    lemma_repair_idempotent(t4, command, cwd);
    let twice = migrate_spec(once, v1, v2, v3, official, command, cwd);
    assert(twice.done =~= once.done);
    assert(twice.tasks == once.tasks);
}

} // verus!

//! The task library: looking tasks up by id and the edits the desktop shell
//! makes to them (activation, the runtime switch, the dashboard layout).
use vstd::prelude::*;

use crate::model::{DetailItem, ExecStatus, Execution, Lifecycle, Task, TaskResultState};
use crate::urls::ov;
use crate::runner;
use crate::text;
use crate::text::views;

verus! {

/// The position of the first task with this id.
pub open spec fn task_index(tasks: Seq<Task>, id: Seq<char>) -> Option<int>
    decreases tasks.len(),
{
    if tasks.len() == 0 {
        None
    } else if tasks[0].id@ == id {
        Some(0)
    } else {
        match task_index(tasks.drop_first(), id) {
            Some(k) => Some(k + 1),
            None => None,
        }
    }
}

pub proof fn lemma_task_index(tasks: Seq<Task>, id: Seq<char>)
    ensures
        match task_index(tasks, id) {
            Some(k) => 0 <= k < tasks.len() && tasks[k].id@ == id && forall|j: int|
                0 <= j < k ==> tasks[j].id@ != id,
            None => forall|j: int| 0 <= j < tasks.len() ==> tasks[j].id@ != id,
        },
    decreases tasks.len(),
{
    if tasks.len() > 0 && tasks[0].id@ != id {
        lemma_task_index(tasks.drop_first(), id);
        assert forall|j: int| 0 < j < tasks.len() implies tasks[j] == tasks.drop_first()[j - 1] by {}
    }
}

/// Finds the first task with this id.
pub fn find_task(tasks: &Vec<Task>, id: &str) -> (res: Option<usize>)
    ensures
        match res {
            Some(i) => task_index(tasks@, id@) == Some(i as int) && i < tasks@.len(),
            None => task_index(tasks@, id@) is None,
        },
{
    proof {
        lemma_task_index(tasks@, id@);
    }
    let mut i: usize = 0;
    while i < tasks.len()
        invariant
            i <= tasks@.len(),
            forall|j: int| 0 <= j < i ==> tasks@[j].id@ != id@,
            match task_index(tasks@, id@) {
                Some(k) => 0 <= k < tasks@.len() && tasks@[k].id@ == id@ && forall|j: int|
                    0 <= j < k ==> tasks@[j].id@ != id@,
                None => forall|j: int| 0 <= j < tasks@.len() ==> tasks@[j].id@ != id@,
            },
        decreases tasks.len() - i,
    {
        if text::str_eq(tasks[i].id.as_str(), id) {
            return Some(i);
        }
        i += 1;
    }
    None
}

/// Turns off the runtime switch of the first task with this id.
pub fn disable_task(tasks: &mut Vec<Task>, id: &str)
    ensures
        match task_index(old(tasks)@, id@) {
            Some(k) => final(tasks)@ == old(tasks)@.update(k, Task { enabled: false, ..old(tasks)@[k] }),
            None => final(tasks)@ == old(tasks)@,
        },
{
    match find_task(tasks, id) {
        Some(i) => {
            let mut t = tasks.remove(i);
            t.enabled = false;
            tasks.insert(i, t);
            assert(tasks@ =~= old(tasks)@.update(i as int, Task { enabled: false, ..old(tasks)@[i as int] }));
        },
        None => {},
    }
}

// ---------------------------------------------------------------------------
// Saving and deleting tasks
// ---------------------------------------------------------------------------

/// A task as it is saved: it gets the fresh id and creation time where it
/// has none, and an item outside the working library is switched off and
/// taken off the dashboard.
pub open spec fn prepared(t: Task, new_id: Seq<char>, now: Seq<char>, res: Task) -> bool {
    &&& res.id@ == (if t.id@.len() == 0 {
        new_id
    } else {
        t.id@
    })
    &&& res.created_at@ == (if t.created_at@.len() == 0 {
        now
    } else {
        t.created_at@
    })
    &&& res.enabled == (t.active && t.enabled)
    &&& res.on_dashboard == (t.active && t.on_dashboard)
    &&& res.nickname == t.nickname
    &&& res.command == t.command
    &&& res.kind == t.kind
    &&& res.args == t.args
    &&& res.cwd == t.cwd
    &&& res.trigger == t.trigger
    &&& res.display == t.display
    &&& res.lifecycle == t.lifecycle
    &&& res.active == t.active
    &&& res.timeout_secs == t.timeout_secs
    &&& res.push_channel == t.push_channel
    &&& res.order == t.order
    &&& res.col_span == t.col_span
    &&& res.row_span == t.row_span
    &&& res.output_dir == t.output_dir
    &&& res.stdin == t.stdin
    &&& res.community == t.community
}

pub fn prepare_task(task: Task, new_id: String, now: String) -> (res: Task)
    ensures
        prepared(task, new_id@, now@, res),
{
    let mut t = task;
    if text::chars_of(t.id.as_str()).len() == 0 {
        t.id = new_id;
    }
    if text::chars_of(t.created_at.as_str()).len() == 0 {
        t.created_at = now;
    }
    if !t.active {
        t.enabled = false;
        t.on_dashboard = false;
    }
    t
}

/// Whether saving a task starts it at once: an active, switched-on
/// resident plugin is restored after an edit.
pub fn resumes_after_save(task: &Task) -> (res: bool)
    ensures
        res == (task.active && task.enabled && task.lifecycle == Lifecycle::Resident),
{
    task.active && task.enabled && task.lifecycle == Lifecycle::Resident
}

/// Saves a task: any task with the same id is replaced, and the saved task
/// goes to the end of the list.
pub fn store_task(tasks: &mut Vec<Task>, task: Task)
    ensures
        final(tasks)@ == old(tasks)@.filter(|t: Task| t.id@ != task.id@).push(task),
{
    remove_task(tasks, task.id.as_str());
    tasks.push(task);
}

/// Removes every task with this id, keeping the others in order.
pub fn remove_task(tasks: &mut Vec<Task>, id: &str)
    ensures
        final(tasks)@ == old(tasks)@.filter(|t: Task| t.id@ != id@),
{
    let ghost keep = |t: Task| t.id@ != id@;
    let mut rest: Vec<Task> = Vec::new();
    std::mem::swap(tasks, &mut rest);
    let ghost orig = rest@;
    assert(orig.len() == rest.len());
    let mut i: usize = 0;
    proof {
        reveal(Seq::filter);
        assert(orig.take(0) =~= Seq::<Task>::empty());
    }
    while rest.len() > 0
        invariant
            i + rest@.len() == orig.len(),
            orig.len() <= usize::MAX,
            rest@ == orig.skip(i as int),
            keep == |t: Task| t.id@ != id@,
            tasks@ == orig.take(i as int).filter(keep),
        decreases rest.len(),
    {
        let t = rest.remove(0);
        proof {
            assert(t == orig[i as int]);
            assert(orig.take(i + 1) =~= orig.take(i as int).push(orig[i as int]));
            assert(rest@ =~= orig.skip(i + 1));
            text::lemma_filter_push(orig.take(i as int), keep, orig[i as int]);
        }
        if !text::str_eq(t.id.as_str(), id) {
            tasks.push(t);
        }
        i += 1;
    }
    assert(orig.take(orig.len() as int) =~= orig);
}

/// A task installed from a community registry is removed from the plugin
/// centre, so that its package files go with it.
pub open spec fn deletable(tasks: Seq<Task>, id: Seq<char>) -> bool {
    match task_index(tasks, id) {
        Some(k) => tasks[k].community is None,
        None => true,
    }
}

pub fn check_deletable(tasks: &Vec<Task>, id: &str) -> (res: Result<(), String>)
    ensures
        res is Ok <==> deletable(tasks@, id@),
        res matches Err(e) ==> e@ == "社区安装的项目请在“插件中心”卸载，以便同时清理包文件。"@,
{
    match find_task(tasks, id) {
        Some(k) => {
            if tasks[k].community.is_some() {
                return Err(text::string_from("社区安装的项目请在“插件中心”卸载，以便同时清理包文件。"));
            }
            Ok(())
        },
        None => Ok(()),
    }
}

/// Drops the collected results of a task.
pub fn remove_results(results: &mut Vec<(String, TaskResultState)>, id: &str)
    ensures
        final(results)@ == old(results)@.filter(|r: (String, TaskResultState)| r.0@ != id@),
{
    let ghost keep = |r: (String, TaskResultState)| r.0@ != id@;
    let mut rest: Vec<(String, TaskResultState)> = Vec::new();
    std::mem::swap(results, &mut rest);
    let ghost orig = rest@;
    assert(orig.len() == rest.len());
    let mut i: usize = 0;
    proof {
        reveal(Seq::filter);
        assert(orig.take(0) =~= Seq::<(String, TaskResultState)>::empty());
    }
    while rest.len() > 0
        invariant
            i + rest@.len() == orig.len(),
            orig.len() <= usize::MAX,
            rest@ == orig.skip(i as int),
            keep == |r: (String, TaskResultState)| r.0@ != id@,
            results@ == orig.take(i as int).filter(keep),
        decreases rest.len(),
    {
        let r = rest.remove(0);
        proof {
            assert(r == orig[i as int]);
            assert(orig.take(i + 1) =~= orig.take(i as int).push(orig[i as int]));
            assert(rest@ =~= orig.skip(i + 1));
            text::lemma_filter_push(orig.take(i as int), keep, orig[i as int]);
        }
        if !text::str_eq(r.0.as_str(), id) {
            results.push(r);
        }
        i += 1;
    }
    assert(orig.take(orig.len() as int) =~= orig);
}

// ---------------------------------------------------------------------------
// Switches
// ---------------------------------------------------------------------------

/// Moves a task into or out of the working library; leaving it switches
/// the task off and takes it off the dashboard.
pub fn set_active(tasks: &mut Vec<Task>, id: &str, active: bool)
    ensures
        match task_index(old(tasks)@, id@) {
            Some(k) => final(tasks)@ == old(tasks)@.update(
                k,
                if active {
                    Task { active: true, ..old(tasks)@[k] }
                } else {
                    Task { active: false, enabled: false, on_dashboard: false, ..old(tasks)@[k] }
                },
            ),
            None => final(tasks)@ == old(tasks)@,
        },
{
    match find_task(tasks, id) {
        Some(i) => {
            let mut t = tasks.remove(i);
            t.active = active;
            if !active {
                t.enabled = false;
                t.on_dashboard = false;
            }
            tasks.insert(i, t);
            assert(tasks@ =~= old(tasks)@.update(
                i as int,
                if active {
                    Task { active: true, ..old(tasks)@[i as int] }
                } else {
                    Task { active: false, enabled: false, on_dashboard: false, ..old(tasks)@[i as int] }
                },
            ));
        },
        None => {},
    }
}

/// The position of the first task with this id that is in the working
/// library (and, with `switched_on`, also switched on).
pub open spec fn live_index(tasks: Seq<Task>, id: Seq<char>, switched_on: bool) -> Option<int>
    decreases tasks.len(),
{
    if tasks.len() == 0 {
        None
    } else if tasks[0].id@ == id && tasks[0].active && (!switched_on || tasks[0].enabled) {
        Some(0)
    } else {
        match live_index(tasks.drop_first(), id, switched_on) {
            Some(k) => Some(k + 1),
            None => None,
        }
    }
}

proof fn lemma_live_index(tasks: Seq<Task>, id: Seq<char>, switched_on: bool)
    ensures
        match live_index(tasks, id, switched_on) {
            Some(k) => 0 <= k < tasks.len() && tasks[k].id@ == id && tasks[k].active && (
            !switched_on || tasks[k].enabled),
            None => true,
        },
    decreases tasks.len(),
{
    if tasks.len() > 0 {
        lemma_live_index(tasks.drop_first(), id, switched_on);
    }
}

fn find_live(tasks: &Vec<Task>, id: &str, switched_on: bool) -> (res: Option<usize>)
    ensures
        match res {
            Some(i) => live_index(tasks@, id@, switched_on) == Some(i as int) && i < tasks@.len(),
            None => live_index(tasks@, id@, switched_on) is None,
        },
{
    proof {
        lemma_live_index(tasks@, id@, switched_on);
    }
    let mut i: usize = 0;
    assert(tasks@.skip(0) =~= tasks@);
    while i < tasks.len()
        invariant
            i <= tasks@.len(),
            live_index(tasks@, id@, switched_on) == (match live_index(
                tasks@.skip(i as int),
                id@,
                switched_on,
            ) {
                Some(k) => Some(k + i),
                None => None::<int>,
            }),
        decreases tasks.len() - i,
    {
        assert(tasks@.skip(i as int)[0] == tasks@[i as int]);
        assert(tasks@.skip(i as int).drop_first() =~= tasks@.skip(i + 1));
        let t = &tasks[i];
        if text::str_eq(t.id.as_str(), id) && t.active && (!switched_on || t.enabled) {
            return Some(i);
        }
        i += 1;
    }
    None
}

/// Flips the runtime switch of the first library task with this id. Returns
/// that task's position; tasks outside the library are left alone.
pub fn set_enabled(tasks: &mut Vec<Task>, id: &str, enabled: bool) -> (res: Option<usize>)
    ensures
        res == (match live_index(old(tasks)@, id@, false) {
            Some(k) => Some(k as usize),
            None => None::<usize>,
        }),
        match live_index(old(tasks)@, id@, false) {
            Some(k) => final(tasks)@ == old(tasks)@.update(k, Task { enabled, ..old(tasks)@[k] }),
            None => final(tasks)@ == old(tasks)@,
        },
{
    match find_live(tasks, id, false) {
        Some(i) => {
            let mut t = tasks.remove(i);
            t.enabled = enabled;
            tasks.insert(i, t);
            assert(tasks@ =~= old(tasks)@.update(i as int, Task { enabled, ..old(tasks)@[i as int] }));
            Some(i)
        },
        None => None,
    }
}

/// The task a manual run starts: the first one with this id that is in the
/// library and switched on.
pub fn runnable(tasks: &Vec<Task>, id: &str) -> (res: Option<usize>)
    ensures
        res == (match live_index(tasks@, id@, true) {
            Some(k) => Some(k as usize),
            None => None::<usize>,
        }),
{
    find_live(tasks, id, true)
}

// ---------------------------------------------------------------------------
// The dashboard
// ---------------------------------------------------------------------------

/// The position of the first occurrence of `id` in a list.
pub open spec fn position(ids: Seq<Seq<char>>, id: Seq<char>) -> Option<int>
    decreases ids.len(),
{
    if ids.len() == 0 {
        None
    } else if ids[0] == id {
        Some(0)
    } else {
        match position(ids.drop_first(), id) {
            Some(k) => Some(k + 1),
            None => None,
        }
    }
}

pub proof fn lemma_position(ids: Seq<Seq<char>>, id: Seq<char>)
    ensures
        match position(ids, id) {
            Some(k) => 0 <= k < ids.len() && ids[k] == id && forall|j: int| 0 <= j < k ==> ids[j] != id,
            None => !ids.contains(id),
        },
    decreases ids.len(),
{
    if ids.len() > 0 {
        lemma_position(ids.drop_first(), id);
        if ids[0] != id {
            assert forall|j: int| 0 < j < ids.len() implies ids[j] == ids.drop_first()[j - 1] by {}
            if position(ids, id) is None {
                assert forall|j: int| 0 <= j < ids.len() implies ids[j] != id by {
                    if j > 0 {
                        assert(ids[j] == ids.drop_first()[j - 1]);
                    }
                }
            }
        }
    }
}

fn find_position(ids: &Vec<String>, id: &str) -> (res: Option<usize>)
    ensures
        res == (match position(views(ids@), id@) {
            Some(k) => Some(k as usize),
            None => None::<usize>,
        }),
        res matches Some(k) ==> k < ids@.len(),
{
    let ghost vs = views(ids@);
    proof {
        lemma_position(vs, id@);
    }
    let mut i: usize = 0;
    assert(vs.skip(0) =~= vs);
    while i < ids.len()
        invariant
            i <= ids@.len(),
            vs == views(ids@),
            position(vs, id@) == (match position(vs.skip(i as int), id@) {
                Some(k) => Some(k + i),
                None => None::<int>,
            }),
        decreases ids.len() - i,
    {
        assert(vs.skip(i as int)[0] == ids@[i as int]@);
        assert(vs.skip(i as int).drop_first() =~= vs.skip(i + 1));
        if text::str_eq(ids[i].as_str(), id) {
            return Some(i);
        }
        i += 1;
    }
    None
}

/// A task after the dashboard is laid out: an active task listed in `ids`
/// is shown at its first position in the list; every other task is hidden.
pub open spec fn laid_out(t: Task, ids: Seq<Seq<char>>, new: Task) -> bool {
    match (if t.active {
        position(ids, t.id@)
    } else {
        None
    }) {
        Some(p) => new == Task { on_dashboard: true, order: (p as usize) as i32, ..t },
        None => new == Task { on_dashboard: false, ..t },
    }
}

/// Lays out the dashboard in one call: the active tasks listed in
/// `ordered_ids` are shown in that order; every other task is hidden.
pub fn set_dashboard(tasks: &mut Vec<Task>, ordered_ids: &Vec<String>)
    ensures
        final(tasks)@.len() == old(tasks)@.len(),
        forall|i: int|
            0 <= i < old(tasks)@.len() ==> laid_out(
                old(tasks)@[i],
                views(ordered_ids@),
                #[trigger] final(tasks)@[i],
            ),
{
    let mut i: usize = 0;
    while i < tasks.len()
        invariant
            i <= tasks@.len(),
            tasks@.len() == old(tasks)@.len(),
            forall|k: int|
                0 <= k < i ==> laid_out(old(tasks)@[k], views(ordered_ids@), #[trigger] tasks@[k]),
            forall|k: int| i <= k < tasks@.len() ==> #[trigger] tasks@[k] == old(tasks)@[k],
        decreases tasks.len() - i,
    {
        let mut t = tasks.remove(i);
        let pos = if t.active {
            find_position(ordered_ids, t.id.as_str())
        } else {
            None
        };
        match pos {
            Some(p) => {
                t.on_dashboard = true;
                t.order = p as i32;
            },
            None => {
                t.on_dashboard = false;
            },
        }
        tasks.insert(i, t);
        i += 1;
    }
}

/// What the dashboard shows after a layout: exactly the active tasks that
/// were listed, each at the position where it was first listed.
pub proof fn lemma_dashboard_shows_listed(old_tasks: Seq<Task>, ids: Seq<Seq<char>>, new_tasks: Seq<Task>)
    requires
        new_tasks.len() == old_tasks.len(),
        forall|i: int| 0 <= i < old_tasks.len() ==> laid_out(old_tasks[i], ids, #[trigger] new_tasks[i]),
    ensures
        forall|i: int|
            0 <= i < new_tasks.len() ==> (#[trigger] new_tasks[i].on_dashboard <==> (old_tasks[i].active
                && ids.contains(old_tasks[i].id@))),
        forall|i: int|
            0 <= i < new_tasks.len() && new_tasks[i].on_dashboard ==> #[trigger] position(ids, old_tasks[i].id@)
                == Some(new_tasks[i].order as int) || ids.len() > i32::MAX as int,
{
    assert forall|i: int| 0 <= i < new_tasks.len() implies (#[trigger] new_tasks[i].on_dashboard <==> (
    old_tasks[i].active && ids.contains(old_tasks[i].id@))) by {
        lemma_position(ids, old_tasks[i].id@);
        assert(laid_out(old_tasks[i], ids, new_tasks[i]));
        if ids.contains(old_tasks[i].id@) {
            let j = choose|j: int| 0 <= j < ids.len() && ids[j] == old_tasks[i].id@;
            assert(ids[j] == old_tasks[i].id@);
        }
    }
    assert forall|i: int|
        0 <= i < new_tasks.len() && new_tasks[i].on_dashboard implies #[trigger] position(
        ids,
        old_tasks[i].id@,
    ) == Some(new_tasks[i].order as int) || ids.len() > i32::MAX as int by {
        lemma_position(ids, old_tasks[i].id@);
        assert(laid_out(old_tasks[i], ids, new_tasks[i]));
    }
}

pub open spec fn clamp(v: u8, lo: u8, hi: u8) -> u8 {
    if v < lo {
        lo
    } else if v > hi {
        hi
    } else {
        v
    }
}

/// Sets a dashboard module's size in grid units: 1 to 3 columns, 1 to 2
/// rows.
pub fn set_module_span(tasks: &mut Vec<Task>, id: &str, col: u8, row: u8)
    ensures
        match task_index(old(tasks)@, id@) {
            Some(k) => final(tasks)@ == old(tasks)@.update(
                k,
                Task { col_span: clamp(col, 1, 3), row_span: clamp(row, 1, 2), ..old(tasks)@[k] },
            ),
            None => final(tasks)@ == old(tasks)@,
        },
{
    match find_task(tasks, id) {
        Some(i) => {
            let mut t = tasks.remove(i);
            t.col_span = if col < 1 {
                1
            } else if col > 3 {
                3
            } else {
                col
            };
            t.row_span = if row < 1 {
                1
            } else if row > 2 {
                2
            } else {
                row
            };
            tasks.insert(i, t);
            assert(tasks@ =~= old(tasks)@.update(
                i as int,
                Task { col_span: clamp(col, 1, 3), row_span: clamp(row, 1, 2), ..old(tasks)@[i as int] },
            ));
        },
        None => {},
    }
}

// ---------------------------------------------------------------------------
// The daily brief
// ---------------------------------------------------------------------------

#[derive(Debug, Clone)]
pub struct BriefSection {
    pub icon: String,
    pub title: String,
    pub detail: String,
    pub level: String,
}

#[derive(Debug, Clone)]
pub struct Brief {
    pub headline: String,
    pub sections: Vec<BriefSection>,
}

/// A section as (icon, title, detail, level).
pub open spec fn section_view(s: BriefSection) -> (Seq<char>, Seq<char>, Seq<char>, Seq<char>) {
    (s.icon@, s.title@, s.detail@, s.level@)
}

pub open spec fn section_views(v: Seq<BriefSection>) -> Seq<(Seq<char>, Seq<char>, Seq<char>, Seq<char>)> {
    v.map_values(|s: BriefSection| section_view(s))
}

pub open spec fn count_today(es: Seq<Execution>, today: Seq<char>) -> nat
    decreases es.len(),
{
    if es.len() == 0 {
        0
    } else {
        count_today(es.drop_last(), today) + if text::starts_with(es.last().started_at@, today) {
            1nat
        } else {
            0nat
        }
    }
}

pub open spec fn is_failure(s: ExecStatus) -> bool {
    s == ExecStatus::Failed || s == ExecStatus::TimedOut
}

pub open spec fn count_failures(es: Seq<Execution>) -> nat
    decreases es.len(),
{
    if es.len() == 0 {
        0
    } else {
        count_failures(es.drop_last()) + if is_failure(es.last().status) {
            1nat
        } else {
            0nat
        }
    }
}

pub open spec fn count_enabled(ts: Seq<Task>) -> nat
    decreases ts.len(),
{
    if ts.len() == 0 {
        0
    } else {
        count_enabled(ts.drop_last()) + if ts.last().enabled {
            1nat
        } else {
            0nat
        }
    }
}

/// The section a switched-on task with a summary contributes.
pub open spec fn summary_section(t: Task, results: Seq<(String, TaskResultState)>) -> Option<
    (Seq<char>, Seq<char>, Seq<char>, Seq<char>),
> {
    if !t.enabled {
        None
    } else {
        match runner::result_index(results, t.id@) {
            Some(k) => match results[k].1.summary {
                Some(s) => Some(
                    (
                        "layout-grid"@,
                        s.headline@,
                        t.nickname@ + " · "@ + match ov(results[k].1.updated_at) {
                            Some(u) => u,
                            None => Seq::empty(),
                        },
                        "info"@,
                    ),
                ),
                None => None,
            },
            None => None,
        }
    }
}

/// Only switched-on tasks are summarised in the brief: a switched-off task
/// contributes no section, and a switched-on task contributes one exactly
/// when it has a result with a summary, titled by that summary's headline
/// and detailed by the task's nickname and the result's time.
pub proof fn lemma_brief_summarises_enabled_tasks(t: Task, results: Seq<(String, TaskResultState)>)
    ensures
        !t.enabled ==> summary_section(t, results) is None,
        t.enabled ==> match runner::result_index(results, t.id@) {
            Some(k) => match results[k].1.summary {
                Some(s) => summary_section(t, results) matches Some(x) && x.0 == "layout-grid"@ && x.1
                    == s.headline@ && x.3 == "info"@ && text::starts_with(x.2, t.nickname@ + " · "@),
                None => summary_section(t, results) is None,
            },
            None => summary_section(t, results) is None,
        },
{
    let sep = t.nickname@ + " · "@;
    match runner::result_index(results, t.id@) {
        Some(k) => match results[k].1.summary {
            Some(s) => {
                let u = match ov(results[k].1.updated_at) {
                    Some(u) => u,
                    None => Seq::empty(),
                };
                assert((sep + u).subrange(0, sep.len() as int) =~= sep);
            },
            None => {},
        },
        None => {},
    }
}

/// With no task switched on, the brief has no summary sections.
pub proof fn lemma_no_sections_without_enabled_tasks(ts: Seq<Task>, results: Seq<(String, TaskResultState)>)
    requires
        forall|i: int| 0 <= i < ts.len() ==> !(#[trigger] ts[i]).enabled,
    ensures
        summary_sections(ts, results).len() == 0,
    decreases ts.len(),
{
    if ts.len() > 0 {
        lemma_no_sections_without_enabled_tasks(ts.drop_last(), results);
        assert(!ts[ts.len() - 1].enabled);
    }
}

/// The summary sections of the switched-on tasks, in task order.
pub open spec fn summary_sections(ts: Seq<Task>, results: Seq<(String, TaskResultState)>) -> Seq<
    (Seq<char>, Seq<char>, Seq<char>, Seq<char>),
>
    decreases ts.len(),
{
    if ts.len() == 0 {
        Seq::empty()
    } else {
        let init = summary_sections(ts.drop_last(), results);
        match summary_section(ts.last(), results) {
            Some(x) => init.push(x),
            None => init,
        }
    }
}

pub open spec fn brief_sections(
    tasks: Seq<Task>,
    executions: Seq<Execution>,
    results: Seq<(String, TaskResultState)>,
    today: Seq<char>,
) -> Seq<(Seq<char>, Seq<char>, Seq<char>, Seq<char>)> {
    let enabled = count_enabled(tasks);
    let fails = count_failures(executions);
    let first = (
        "list-checks"@,
        "任务"@,
        text::decimal(enabled) + " 个启用 · 今日已运行 "@ + text::decimal(count_today(executions, today))
            + " 次"@,
        "info"@,
    );
    let body = seq![first] + runner::first_n(summary_sections(tasks, results), 3);
    if fails > 0 {
        body.push(
            ("alert-triangle"@, "需要注意"@, "有 "@ + text::decimal(fails) + " 次运行失败"@, "danger"@),
        )
    } else {
        body
    }
}

proof fn lemma_failures_counted(es: Seq<Execution>)
    ensures
        count_failures(es) > 0 <==> exists|i: int| 0 <= i < es.len() && is_failure(#[trigger] es[i].status),
    decreases es.len(),
{
    if es.len() > 0 {
        lemma_failures_counted(es.drop_last());
        if exists|i: int| 0 <= i < es.len() && is_failure(#[trigger] es[i].status) {
            let i = choose|i: int| 0 <= i < es.len() && is_failure(#[trigger] es[i].status);
            if i < es.len() - 1 {
                assert(es.drop_last()[i] == es[i]);
            }
        }
        if exists|i: int| 0 <= i < es.len() - 1 && is_failure(#[trigger] es.drop_last()[i].status) {
            let i = choose|i: int| 0 <= i < es.len() - 1 && is_failure(#[trigger] es.drop_last()[i].status);
            assert(es[i] == es.drop_last()[i]);
        }
    }
}

/// `x` is the summary section of some switched-on task.
pub open spec fn section_from_enabled(
    ts: Seq<Task>,
    results: Seq<(String, TaskResultState)>,
    x: (Seq<char>, Seq<char>, Seq<char>, Seq<char>),
) -> bool {
    exists|i: int| 0 <= i < ts.len() && (#[trigger] ts[i]).enabled && summary_section(ts[i], results) == Some(x)
}

/// Each summary section of the brief comes from a switched-on task.
proof fn lemma_sections_from_enabled(ts: Seq<Task>, results: Seq<(String, TaskResultState)>)
    ensures
        forall|j: int|
            0 <= j < summary_sections(ts, results).len() ==> section_from_enabled(
                ts,
                results,
                #[trigger] summary_sections(ts, results)[j],
            ),
    decreases ts.len(),
{
    if ts.len() > 0 {
        let pre = ts.drop_last();
        lemma_sections_from_enabled(pre, results);
        let init = summary_sections(pre, results);
        let all = summary_sections(ts, results);
        assert forall|j: int| 0 <= j < all.len() implies section_from_enabled(ts, results, #[trigger] all[j]) by {
            if j < init.len() {
                assert(all[j] == init[j]);
                assert(section_from_enabled(pre, results, init[j]));
                let i = choose|i: int|
                    0 <= i < pre.len() && (#[trigger] pre[i]).enabled && summary_section(pre[i], results) == Some(
                        init[j],
                    );
                assert(ts[i] == pre[i]);
            } else {
                lemma_brief_summarises_enabled_tasks(ts.last(), results);
                assert(ts[ts.len() - 1] == ts.last());
            }
        }
    }
}

/// The brief: first the task count section; then at most three summaries,
/// each from a switched-on task; and last a warning exactly when some
/// recorded run failed or timed out.
pub proof fn lemma_brief_shape(
    tasks: Seq<Task>,
    executions: Seq<Execution>,
    results: Seq<(String, TaskResultState)>,
    today: Seq<char>,
)
    ensures
        brief_sections(tasks, executions, results, today).len() >= 1,
        brief_sections(tasks, executions, results, today).len() <= 5,
        brief_sections(tasks, executions, results, today)[0].0 == "list-checks"@,
        brief_sections(tasks, executions, results, today)[0].1 == "任务"@,
        (exists|i: int| 0 <= i < executions.len() && is_failure(#[trigger] executions[i].status)) <==> (
        brief_sections(tasks, executions, results, today).last().0 == "alert-triangle"@),
        forall|j: int|
            1 <= j < brief_sections(tasks, executions, results, today).len() && (#[trigger] brief_sections(
                tasks,
                executions,
                results,
                today,
            )[j]).0 != "alert-triangle"@ ==> section_from_enabled(
                tasks,
                results,
                brief_sections(tasks, executions, results, today)[j],
            ),
{
    lemma_failures_counted(executions);
    lemma_sections_from_enabled(tasks, results);
    reveal_strlit("list-checks");
    reveal_strlit("alert-triangle");
    reveal_strlit("layout-grid");
    assert("list-checks"@[0] == 'l' && "alert-triangle"@[0] == 'a' && "layout-grid"@[0] == 'l');
    let sums = summary_sections(tasks, results);
    let b = brief_sections(tasks, executions, results, today);
    let firsts = runner::first_n(sums, 3);
    assert forall|j: int| 0 <= j < firsts.len() implies (#[trigger] firsts[j]).0 == "layout-grid"@
        && section_from_enabled(tasks, results, firsts[j]) by {
        assert(firsts[j] == sums[j]);
        assert(section_from_enabled(tasks, results, sums[j]));
        let i = choose|i: int| 0 <= i < tasks.len() && (#[trigger] tasks[i]).enabled && summary_section(tasks[i], results)
            == Some(sums[j]);
        lemma_brief_summarises_enabled_tasks(tasks[i], results);
    }
    assert forall|j: int| 1 <= j < 1 + firsts.len() implies #[trigger] b[j] == firsts[j - 1] by {}
}

pub open spec fn brief_headline(tasks: Seq<Task>, executions: Seq<Execution>) -> Seq<char> {
    let enabled = count_enabled(tasks);
    let fails = count_failures(executions);
    if fails > 0 {
        "早安。今天有 "@ + text::decimal(enabled) + " 个任务在跑，有 "@ + text::decimal(fails)
            + " 次失败需要你看一眼。"@
    } else {
        "早安。一切平稳，"@ + text::decimal(enabled) + " 个任务在为你运行。"@
    }
}

fn section(icon: &str, title: String, detail: String, level: &str) -> (res: BriefSection)
    ensures
        section_view(res) == (icon@, title@, detail@, level@),
{
    BriefSection { icon: text::string_from(icon), title, detail, level: text::string_from(level) }
}

fn count_today_exec(es: &Vec<Execution>, today: &str) -> (res: usize)
    ensures
        res == count_today(es@, today@),
{
    let mut n: usize = 0;
    let mut i: usize = 0;
    while i < es.len()
        invariant
            i <= es@.len(),
            n == count_today(es@.take(i as int), today@),
            n <= i,
        decreases es.len() - i,
    {
        assert(es@.take(i + 1).drop_last() =~= es@.take(i as int));
        let started = text::chars_of(es[i].started_at.as_str());
        if text::starts_with_str(&started, today) {
            n += 1;
        }
        i += 1;
    }
    assert(es@.take(es@.len() as int) =~= es@);
    n
}

fn count_failures_exec(es: &Vec<Execution>) -> (res: usize)
    ensures
        res == count_failures(es@),
{
    let mut n: usize = 0;
    let mut i: usize = 0;
    while i < es.len()
        invariant
            i <= es@.len(),
            n == count_failures(es@.take(i as int)),
            n <= i,
        decreases es.len() - i,
    {
        assert(es@.take(i + 1).drop_last() =~= es@.take(i as int));
        if es[i].status == ExecStatus::Failed || es[i].status == ExecStatus::TimedOut {
            n += 1;
        }
        i += 1;
    }
    assert(es@.take(es@.len() as int) =~= es@);
    n
}

fn count_enabled_exec(ts: &Vec<Task>) -> (res: usize)
    ensures
        res == count_enabled(ts@),
{
    let mut n: usize = 0;
    let mut i: usize = 0;
    while i < ts.len()
        invariant
            i <= ts@.len(),
            n == count_enabled(ts@.take(i as int)),
            n <= i,
        decreases ts.len() - i,
    {
        assert(ts@.take(i + 1).drop_last() =~= ts@.take(i as int));
        if ts[i].enabled {
            n += 1;
        }
        i += 1;
    }
    assert(ts@.take(ts@.len() as int) =~= ts@);
    n
}

fn summary_section_exec(t: &Task, results: &Vec<(String, TaskResultState)>) -> (res: Option<BriefSection>)
    ensures
        match res {
            Some(s) => summary_section(*t, results@) == Some(section_view(s)),
            None => summary_section(*t, results@) is None,
        },
{
    if !t.enabled {
        return None;
    }
    match runner::find_result(results, t.id.as_str()) {
        Some(k) => match &results[k].1.summary {
            Some(s) => {
                let mut detail = text::chars_of(t.nickname.as_str());
                text::append_str(&mut detail, " · ");
                match &results[k].1.updated_at {
                    Some(u) => text::append_str(&mut detail, u.as_str()),
                    None => {},
                }
                assert(detail@ == t.nickname@ + " · "@ + match ov(results@[k as int].1.updated_at) {
                    Some(u) => u,
                    None => Seq::<char>::empty(),
                });
                Some(section("layout-grid", text::copy_string(&s.headline), text::string_of(&detail), "info"))
            },
            None => None,
        },
        None => None,
    }
}

/// The daily brief: how many tasks are switched on and ran today, the
/// summaries of the first three switched-on tasks that have one, and a
/// warning where any recorded run failed or timed out. `today` is the local
/// date as `YYYY-MM-DD`.
pub fn compose_brief(
    tasks: &Vec<Task>,
    executions: &Vec<Execution>,
    results: &Vec<(String, TaskResultState)>,
    today: &str,
) -> (res: Brief)
    ensures
        section_views(res.sections@) == brief_sections(tasks@, executions@, results@, today@),
        res.headline@ == brief_headline(tasks@, executions@),
{
    let runs_today = count_today_exec(executions, today);
    let fails = count_failures_exec(executions);
    let enabled = count_enabled_exec(tasks);
    let mut detail: Vec<char> = Vec::new();
    text::push_decimal(&mut detail, enabled as u64);
    text::append_str(&mut detail, " 个启用 · 今日已运行 ");
    text::push_decimal(&mut detail, runs_today as u64);
    text::append_str(&mut detail, " 次");
    let mut sections: Vec<BriefSection> = Vec::new();
    sections.push(section("list-checks", text::string_from("任务"), text::string_of(&detail), "info"));
    let ghost head = section_views(sections@);
    let ghost all = summary_sections(tasks@, results@);
    let mut i: usize = 0;
    assert(tasks@.take(0) =~= Seq::<Task>::empty());
    assert(section_views(sections@) =~= head + runner::first_n(summary_sections(tasks@.take(0), results@), 3));
    while i < tasks.len()
        invariant
            i <= tasks@.len(),
            head.len() == 1,
            section_views(sections@) == head + runner::first_n(summary_sections(tasks@.take(i as int), results@), 3),
        decreases tasks.len() - i,
    {
        assert(tasks@.take(i + 1).drop_last() =~= tasks@.take(i as int));
        let ghost before = summary_sections(tasks@.take(i as int), results@);
        assert(section_views(sections@).len() == sections@.len());
        if sections.len() < 4 {
            match summary_section_exec(&tasks[i], results) {
                Some(sec) => {
                    let ghost old_secs = sections@;
                    sections.push(sec);
                    assert(section_views(sections@) =~= section_views(old_secs).push(section_view(sec)));
                    assert(tasks@.take(i + 1).last() == tasks@[i as int]);
                    assert(summary_sections(tasks@.take(i + 1), results@) == before.push(section_view(sec)));
                    assert(runner::first_n(before.push(section_view(sec)), 3) =~= runner::first_n(before, 3).push(section_view(sec)));
                    assert(section_views(sections@) =~= head + runner::first_n(summary_sections(tasks@.take(i + 1), results@), 3));
                },
                None => {
                    assert(tasks@.take(i + 1).last() == tasks@[i as int]);
                },
            }
        } else {
            assert(tasks@.take(i + 1).last() == tasks@[i as int]);
            proof {
                match summary_section(tasks@[i as int], results@) {
                    Some(x) => {
                        assert(runner::first_n(before.push(x), 3) =~= runner::first_n(before, 3));
                    },
                    None => {},
                }
            }
        }
        i += 1;
    }
    assert(tasks@.take(tasks@.len() as int) =~= tasks@);
    let ghost body = section_views(sections@);
    if fails > 0 {
        let mut d: Vec<char> = text::chars_of("有 ");
        text::push_decimal(&mut d, fails as u64);
        text::append_str(&mut d, " 次运行失败");
        let sec = section("alert-triangle", text::string_from("需要注意"), text::string_of(&d), "danger");
        sections.push(sec);
        assert(section_views(sections@) =~= body.push(section_view(sec)));
    }
    let mut h: Vec<char> = Vec::new();
    if fails > 0 {
        text::append_str(&mut h, "早安。今天有 ");
        text::push_decimal(&mut h, enabled as u64);
        text::append_str(&mut h, " 个任务在跑，有 ");
        text::push_decimal(&mut h, fails as u64);
        text::append_str(&mut h, " 次失败需要你看一眼。");
    } else {
        text::append_str(&mut h, "早安。一切平稳，");
        text::push_decimal(&mut h, enabled as u64);
        text::append_str(&mut h, " 个任务在为你运行。");
    }
    Brief { headline: text::string_of(&h), sections }
}

// ---------------------------------------------------------------------------
// Execution records for the desktop shell
// ---------------------------------------------------------------------------

pub open spec fn same_item(a: DetailItem, b: DetailItem) -> bool {
    &&& ov(a.id) == ov(b.id)
    &&& a.title@ == b.title@
    &&& ov(a.subtitle) == ov(b.subtitle)
    &&& ov(a.at) == ov(b.at)
    &&& ov(a.kind) == ov(b.kind)
    &&& ov(a.path) == ov(b.path)
}

pub fn copy_item(d: &DetailItem) -> (res: DetailItem)
    ensures
        same_item(res, *d),
{
    DetailItem {
        id: text::copy_opt_string(&d.id),
        title: text::copy_string(&d.title),
        subtitle: text::copy_opt_string(&d.subtitle),
        at: text::copy_opt_string(&d.at),
        kind: text::copy_opt_string(&d.kind),
        path: text::copy_opt_string(&d.path),
    }
}

pub fn copy_items(v: &Vec<DetailItem>) -> (res: Vec<DetailItem>)
    ensures
        res@.len() == v@.len(),
        forall|i: int| 0 <= i < v@.len() ==> same_item(#[trigger] res@[i], v@[i]),
{
    let mut out: Vec<DetailItem> = Vec::new();
    let mut i: usize = 0;
    while i < v.len()
        invariant
            i <= v@.len(),
            out@.len() == i,
            forall|k: int| 0 <= k < i ==> same_item(#[trigger] out@[k], v@[k]),
        decreases v.len() - i,
    {
        out.push(copy_item(&v[i]));
        i += 1;
    }
    out
}

/// The products of one run, looked up by its record's id (none where no
/// record has it).
pub fn exec_items(executions: &Vec<Execution>, exec_id: &str) -> (res: Vec<DetailItem>)
    ensures
        match runner::exec_index(executions@, exec_id@) {
            Some(k) => res@.len() == executions@[k].items@.len() && forall|i: int|
                0 <= i < res@.len() ==> same_item(#[trigger] res@[i], executions@[k].items@[i]),
            None => res@.len() == 0,
        },
{
    match runner::find_execution(executions, exec_id) {
        Some(k) => copy_items(&executions[k].items),
        None => Vec::new(),
    }
}

/// A record without its products, as the polled snapshot carries it.
pub open spec fn stripped(e: Execution, s: Execution) -> bool {
    &&& s.id@ == e.id@
    &&& s.task_id@ == e.task_id@
    &&& s.nickname@ == e.nickname@
    &&& s.started_at@ == e.started_at@
    &&& ov(s.finished_at) == ov(e.finished_at)
    &&& s.status == e.status
    &&& s.exit_code == e.exit_code
    &&& s.trigger@ == e.trigger@
    &&& ov(s.error) == ov(e.error)
    &&& s.item_count == e.item_count
    &&& s.items@.len() == 0
}

/// The newest 60 execution records, without their products; these are
/// fetched on demand.
pub fn snapshot_executions(executions: &Vec<Execution>) -> (res: Vec<Execution>)
    ensures
        res@.len() == runner::first_n(executions@, 60).len(),
        forall|i: int| 0 <= i < res@.len() ==> stripped(executions@[i], #[trigger] res@[i]),
{
    let mut out: Vec<Execution> = Vec::new();
    let mut i: usize = 0;
    while i < executions.len() && i < 60
        invariant
            i <= executions@.len(),
            i <= 60,
            out@.len() == i,
            forall|k: int| 0 <= k < i ==> stripped(executions@[k], #[trigger] out@[k]),
        decreases executions.len() - i,
    {
        let e = &executions[i];
        out.push(
            Execution {
                id: text::copy_string(&e.id),
                task_id: text::copy_string(&e.task_id),
                nickname: text::copy_string(&e.nickname),
                started_at: text::copy_string(&e.started_at),
                finished_at: text::copy_opt_string(&e.finished_at),
                status: e.status,
                exit_code: e.exit_code,
                trigger: text::copy_string(&e.trigger),
                error: text::copy_opt_string(&e.error),
                item_count: e.item_count,
                items: Vec::new(),
            },
        );
        i += 1;
    }
    out
}

/// The resident plugins restored when Mosaic starts: in the library,
/// switched on, resident.
pub open spec fn resident_positions(tasks: Seq<Task>, n: int) -> Seq<usize>
    decreases n,
{
    if n <= 0 {
        Seq::empty()
    } else {
        let init = resident_positions(tasks, n - 1);
        let t = tasks[n - 1];
        if t.active && t.enabled && t.lifecycle == Lifecycle::Resident {
            init.push((n - 1) as usize)
        } else {
            init
        }
    }
}

pub fn resident_tasks(tasks: &Vec<Task>) -> (res: Vec<usize>)
    ensures
        res@ == resident_positions(tasks@, tasks@.len() as int),
{
    let mut out: Vec<usize> = Vec::new();
    let mut i: usize = 0;
    while i < tasks.len()
        invariant
            i <= tasks@.len(),
            out@ == resident_positions(tasks@, i as int),
        decreases tasks.len() - i,
    {
        let t = &tasks[i];
        if t.active && t.enabled && t.lifecycle == Lifecycle::Resident {
            out.push(i);
        }
        i += 1;
    }
    out
}

} // verus!

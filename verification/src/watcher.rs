//! File-name filters of watch triggers.
use vstd::prelude::*;

use crate::text;
use crate::model::{Task, Trigger};
use crate::text::char_views;

verus! {

/// One filter alternative against a (lower-cased) file name: `*` matches
/// everything, `*.ext` matches names ending in `.ext`, anything else must
/// equal the name.
pub open spec fn part_matches(part: Seq<char>, name: Seq<char>) -> bool {
    ||| part == "*"@
    ||| text::starts_with(part, "*."@) && text::ends_with(name, "."@ + part.skip(2))
    ||| !text::starts_with(part, "*."@) && part == name
}

/// Glob-ish, case-insensitive file-name match: an empty pattern or `*`
/// matches all names; otherwise some non-empty comma- or space-separated
/// alternative must match.
pub open spec fn matches_spec(pattern: Seq<char>, name: Seq<char>) -> bool {
    let p = text::unicode_lowercase(text::trim(pattern));
    let n = text::unicode_lowercase(name);
    let parts = text::split_by(p, text::sep_either(',', ' '));
    ||| p.len() == 0
    ||| p == "*"@
    ||| exists|i: int| 0 <= i < parts.len() && parts[i].len() > 0 && #[trigger] part_matches(parts[i], n)
}

fn part_matches_exec(part: &Vec<char>, name: &Vec<char>) -> (res: bool)
    ensures
        res == part_matches(part@, name@),
{
    if text::eq_str(part, "*") {
        return true;
    }
    proof {
        reveal_strlit("*.");
    }
    if text::starts_with_str(part, "*.") {
        let mut suffix = text::chars_of(".");
        let mut k: usize = 2;
        while k < part.len()
            invariant
                2 <= k <= part.len(),
                suffix@ == "."@ + part@.subrange(2, k as int),
            decreases part.len() - k,
        {
            suffix.push(part[k]);
            assert(part@.subrange(2, k + 1) == part@.subrange(2, k as int).push(part@[k as int]));
            k += 1;
        }
        assert(part@.subrange(2, part@.len() as int) == part@.skip(2));
        text::ends_with_chars(name, &suffix)
    } else {
        text::eq_chars(part, name)
    }
}

/// Whether a file name passes a watch trigger's filter.
pub fn matches(pattern: &str, name: &str) -> (res: bool)
    ensures
        res == matches_spec(pattern@, name@),
{
    let trimmed = text::string_of(&text::trim_str(pattern));
    let lower_pattern = text::to_lowercase(trimmed.as_str());
    let p = text::chars_of(lower_pattern.as_str());
    let lower_name = text::to_lowercase(name);
    let n = text::chars_of(lower_name.as_str());
    if p.len() == 0 || text::eq_str(&p, "*") {
        return true;
    }
    let parts = text::split_on(&p, ',', ' ');
    let ghost pv = char_views(parts@);
    let mut i: usize = 0;
    while i < parts.len()
        invariant
            i <= parts.len(),
            pv == char_views(parts@),
            pv == text::split_by(p@, text::sep_either(',', ' ')),
            n@ == text::unicode_lowercase(name@),
            p@ == text::unicode_lowercase(text::trim(pattern@)),
            forall|j: int| 0 <= j < i ==> !(pv[j].len() > 0 && #[trigger] part_matches(pv[j], n@)),
        decreases parts.len() - i,
    {
        if parts[i].len() > 0 && part_matches_exec(&parts[i], &n) {
            assert(pv[i as int].len() > 0 && part_matches(pv[i as int], n@));
            return true;
        }
        i += 1;
    }
    false
}

/// The tasks that get a file watcher: in the library, switched on, with a
/// watch trigger.
pub open spec fn watched(tasks: Seq<Task>, n: int) -> Seq<usize>
    decreases n,
{
    if n <= 0 {
        Seq::empty()
    } else {
        let init = watched(tasks, n - 1);
        let t = tasks[n - 1];
        if t.active && t.enabled && t.trigger is Watch {
            init.push((n - 1) as usize)
        } else {
            init
        }
    }
}

pub fn watched_tasks(tasks: &Vec<Task>) -> (res: Vec<usize>)
    ensures
        res@ == watched(tasks@, tasks@.len() as int),
{
    let mut out: Vec<usize> = Vec::new();
    let mut i: usize = 0;
    while i < tasks.len()
        invariant
            i <= tasks@.len(),
            out@ == watched(tasks@, i as int),
        decreases tasks.len() - i,
    {
        let t = &tasks[i];
        let watch = match &t.trigger {
            Trigger::Watch { .. } => true,
            _ => false,
        };
        if t.active && t.enabled && watch {
            out.push(i);
        }
        i += 1;
    }
    out
}

/// A file event concerns the task when the file name of any of its paths
/// matches the pattern.
pub open spec fn event_hits_spec(pattern: Seq<char>, paths: Seq<Seq<char>>) -> bool {
    exists|i: int|
        0 <= i < paths.len() && match crate::paths::path_file_name(#[trigger] paths[i]) {
            Some(n) => matches_spec(pattern, n),
            None => false,
        }
}

pub fn event_hits(pattern: &str, paths: &Vec<String>) -> (res: bool)
    ensures
        res == event_hits_spec(pattern@, crate::text::views(paths@)),
{
    let ghost ps = crate::text::views(paths@);
    let mut i: usize = 0;
    while i < paths.len()
        invariant
            i <= paths@.len(),
            ps == crate::text::views(paths@),
            forall|k: int|
                0 <= k < i ==> !(match crate::paths::path_file_name(#[trigger] ps[k]) {
                    Some(n) => matches_spec(pattern@, n),
                    None => false,
                }),
        decreases paths.len() - i,
    {
        assert(ps[i as int] == paths@[i as int]@);
        let hit = match crate::paths::file_name(paths[i].as_str()) {
            Some(n) => matches(pattern, n.as_str()),
            None => false,
        };
        if hit {
            return true;
        }
        i += 1;
    }
    false
}

/// Events closer together than this run a watch task only once.
pub const DEBOUNCE_MS: u64 = 800;

/// Whether an event starts a run: enough time has passed since the last run
/// the watcher started.
pub fn debounce_passes(elapsed_ms: u64) -> (res: bool)
    ensures
        res == (elapsed_ms >= DEBOUNCE_MS),
{
    elapsed_ms >= DEBOUNCE_MS
}

} // verus!

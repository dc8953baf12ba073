//! Running tasks: how a run's standard output becomes a summary, a card and
//! timeline items, when the run loop stops a child process, and what is
//! recorded about a run once it ends.
use vstd::prelude::*;

use crate::library;
use crate::model::{
    BotChannel, DetailItem, ExecStatus, Execution, Json, Lifecycle, Notification, PopoConfig, Summary,
    Task, TaskOutput, TaskResultState,
};
use crate::notifications;
use crate::text;
use crate::text::{sep_either, split_by, trim};
use crate::urls::ov;

verus! {

// ---------------------------------------------------------------------------
// Reading JSON documents
// ---------------------------------------------------------------------------

/// The value under `key` in a list of object entries (the first such entry).
pub open spec fn entry_get(es: Seq<(String, Json)>, key: Seq<char>) -> Option<Json>
    decreases es.len(),
{
    if es.len() == 0 {
        None
    } else if es[0].0@ == key {
        Some(es[0].1)
    } else {
        entry_get(es.drop_first(), key)
    }
}

/// The first entry with the key decides the lookup.
pub proof fn lemma_entry_get_at(es: Seq<(String, Json)>, k: int, key: Seq<char>)
    requires
        0 <= k < es.len(),
        es[k].0@ == key,
        forall|j: int| 0 <= j < k ==> es[j].0@ != key,
    ensures
        entry_get(es, key) == Some(es[k].1),
    decreases k,
{
    if k > 0 {
        assert forall|j: int| 0 <= j < k - 1 implies es.drop_first()[j].0@ != key by {
            assert(es.drop_first()[j] == es[j + 1]);
        }
        lemma_entry_get_at(es.drop_first(), k - 1, key);
    }
}

/// `Value::get` with a string key: only objects have members.
pub open spec fn get(v: Json, key: Seq<char>) -> Option<Json> {
    match v {
        Json::Object(es) => entry_get(es@, key),
        _ => None,
    }
}

/// The member `key` of `v` if it is a string.
pub open spec fn str_at(v: Json, key: Seq<char>) -> Option<Seq<char>> {
    match get(v, key) {
        Some(Json::Str(s)) => Some(s@),
        _ => None,
    }
}

pub fn json_get<'a>(v: &'a Json, key: &str) -> (res: Option<&'a Json>)
    ensures
        match res {
            Some(r) => get(*v, key@) == Some(*r),
            None => get(*v, key@) is None,
        },
{
    match v {
        Json::Object(es) => {
            let mut i: usize = 0;
            assert(es@.skip(0) =~= es@);
            while i < es.len()
                invariant
                    i <= es@.len(),
                    get(*v, key@) == entry_get(es@, key@),
                    entry_get(es@, key@) == entry_get(es@.skip(i as int), key@),
                decreases es.len() - i,
            {
                assert(es@.skip(i as int)[0] == es@[i as int]);
                assert(es@.skip(i as int).drop_first() =~= es@.skip(i + 1));
                if text::str_eq(es[i].0.as_str(), key) {
                    assert(entry_get(es@.skip(i as int), key@) == Some(es@[i as int].1));
                    return Some(&es[i].1);
                }
                i += 1;
            }
            None
        },
        _ => None,
    }
}

pub fn json_str_at(v: &Json, key: &str) -> (res: Option<String>)
    ensures
        ov(res) == str_at(*v, key@),
{
    match json_get(v, key) {
        Some(Json::Str(s)) => Some(text::copy_string(s)),
        _ => None,
    }
}

// ---------------------------------------------------------------------------
// Cards and timeline items
// ---------------------------------------------------------------------------

/// A timeline item that carries only a title and an optional subtitle.
pub open spec fn plain_item(d: DetailItem, title: Seq<char>, subtitle: Option<Seq<char>>) -> bool {
    &&& d.id is None
    &&& d.title@ == title
    &&& ov(d.subtitle) == subtitle
    &&& d.at is None
    &&& d.kind is None
    &&& d.path is None
}

/// One entry of a list card: `{"subtitle": .., "text": ..}`.
pub open spec fn is_list_entry(j: Json, item: DetailItem) -> bool {
    &&& j matches Json::Object(es)
    &&& es@.len() == 2
    &&& es@[0].0@ == "subtitle"@
    &&& (match item.subtitle {
        Some(s) => es@[0].1 matches Json::Str(t) && t@ == s@,
        None => es@[0].1 is Null,
    })
    &&& es@[1].0@ == "text"@
    &&& es@[1].1 matches Json::Str(t) && t@ == item.title@
}

/// The card that lists items: `{"items": [..], "title": null, "type": "list"}`.
pub open spec fn is_list_card(j: Json, items: Seq<DetailItem>) -> bool {
    &&& j matches Json::Object(es)
    &&& es@.len() == 3
    &&& es@[0].0@ == "items"@
    &&& es@[0].1 matches Json::Array(xs) && xs@.len() == items.len() && forall|i: int|
        0 <= i < items.len() ==> is_list_entry(#[trigger] xs@[i], items[i])
    &&& es@[1].0@ == "title"@
    &&& es@[1].1 is Null
    &&& es@[2].0@ == "type"@
    &&& es@[2].1 matches Json::Str(t) && t@ == "list"@
}

fn list_entry(item: &DetailItem) -> (res: Json)
    ensures
        is_list_entry(res, *item),
{
    let subtitle = match &item.subtitle {
        Some(s) => Json::Str(text::copy_string(s)),
        None => Json::Null,
    };
    let entries = vec![
        (text::string_from("subtitle"), subtitle),
        (text::string_from("text"), Json::Str(text::copy_string(&item.title))),
    ];
    Json::Object(entries)
}

/// The list card shown for a run whose output is a plain list of items.
pub fn list_card(items: &Vec<DetailItem>) -> (res: Json)
    ensures
        is_list_card(res, items@),
{
    let mut xs: Vec<Json> = Vec::new();
    let mut i: usize = 0;
    while i < items.len()
        invariant
            i <= items@.len(),
            xs@.len() == i,
            forall|k: int| 0 <= k < i ==> is_list_entry(#[trigger] xs@[k], items@[k]),
        decreases items.len() - i,
    {
        xs.push(list_entry(&items[i]));
        i += 1;
    }
    let entries = vec![
        (text::string_from("items"), Json::Array(xs)),
        (text::string_from("title"), Json::Null),
        (text::string_from("type"), Json::Str(text::string_from("list"))),
    ];
    Json::Object(entries)
}

/// The elements under a card's `items` member, if that member is an array.
pub open spec fn card_elements(v: Json) -> Seq<Json> {
    match get(v, "items"@) {
        Some(Json::Array(xs)) => xs@,
        _ => Seq::empty(),
    }
}

/// A card element's title: its `title`, else its `text`, else empty.
pub open spec fn card_title(e: Json) -> Seq<char> {
    match str_at(e, "title"@) {
        Some(t) => t,
        None => match str_at(e, "text"@) {
            Some(t) => t,
            None => Seq::empty(),
        },
    }
}

/// A card element's subtitle: its `subtitle`, else its `source`.
pub open spec fn card_subtitle(e: Json) -> Option<Seq<char>> {
    match str_at(e, "subtitle"@) {
        Some(t) => Some(t),
        None => str_at(e, "source"@),
    }
}

fn plain(title: String, subtitle: Option<String>) -> (res: DetailItem)
    ensures
        plain_item(res, title@, ov(subtitle)),
{
    DetailItem { id: None, title, subtitle, at: None, kind: None, path: None }
}

/// The timeline items a bare card lists.
pub fn items_from_card(v: &Json) -> (res: Vec<DetailItem>)
    ensures
        res@.len() == card_elements(*v).len(),
        forall|i: int|
            0 <= i < res@.len() ==> plain_item(
                #[trigger] res@[i],
                card_title(card_elements(*v)[i]),
                card_subtitle(card_elements(*v)[i]),
            ),
{
    let mut out: Vec<DetailItem> = Vec::new();
    match json_get(v, "items") {
        Some(Json::Array(xs)) => {
            let mut i: usize = 0;
            while i < xs.len()
                invariant
                    i <= xs@.len(),
                    xs@ == card_elements(*v),
                    out@.len() == i,
                    forall|k: int|
                        0 <= k < i ==> plain_item(
                            #[trigger] out@[k],
                            card_title(xs@[k]),
                            card_subtitle(xs@[k]),
                        ),
                decreases xs.len() - i,
            {
                let e = &xs[i];
                let title = match json_str_at(e, "title") {
                    Some(t) => t,
                    None => match json_str_at(e, "text") {
                        Some(t) => t,
                        None => String::new(),
                    },
                };
                let subtitle = match json_str_at(e, "subtitle") {
                    Some(t) => Some(t),
                    None => json_str_at(e, "source"),
                };
                out.push(plain(title, subtitle));
                i += 1;
            }
        },
        _ => {},
    }
    out
}

// ---------------------------------------------------------------------------
// Interpreting a run's output
// ---------------------------------------------------------------------------

/// What one output yields for the task's result state.
#[derive(Debug)]
pub struct ParsedOutput {
    pub summary: Option<Summary>,
    pub card: Option<Json>,
    pub items: Vec<DetailItem>,
}

/// A structured output counts when it reports anything at all.
pub open spec fn has_content(o: TaskOutput) -> bool {
    o.summary is Some || o.card is Some || o.items@.len() > 0
}

/// A JSON object with a `type` member is a card of its own.
pub open spec fn is_bare_card(v: Json) -> bool {
    v is Object && get(v, "type"@) is Some
}

/// The pieces that are not blank, each trimmed.
pub open spec fn nonblank_trimmed(pieces: Seq<Seq<char>>) -> Seq<Seq<char>>
    decreases pieces.len(),
{
    if pieces.len() == 0 {
        Seq::empty()
    } else {
        let init = nonblank_trimmed(pieces.drop_last());
        if trim(pieces.last()).len() > 0 {
            init.push(trim(pieces.last()))
        } else {
            init
        }
    }
}

/// The first `n` elements, or all of them where there are fewer.
pub open spec fn first_n<A>(s: Seq<A>, n: int) -> Seq<A> {
    if s.len() <= n {
        s
    } else {
        s.take(n)
    }
}

/// The non-blank lines of a text, trimmed, at most 100 of them.
pub open spec fn line_titles(t: Seq<char>) -> Seq<Seq<char>> {
    first_n(nonblank_trimmed(split_by(t, sep_either('\n', '\n'))), 100)
}

/// The compact JSON text `serde_json` writes for a value (`Value::to_string`
/// on the value this document stands for).
pub uninterp spec fn json_text(v: Json) -> Seq<char>;

#[verifier::external_type_specification]
#[verifier::external_body]
pub struct ExJsonValue(serde_json::Value);

/// Converts a document into the `serde_json::Value` it stands for, one
/// variant for one variant (a number by re-reading its text).
#[verifier::external_body]
fn json_value(v: &Json) -> serde_json::Value {
    match v {
        Json::Null => serde_json::Value::Null,
        Json::Bool(b) => serde_json::Value::Bool(*b),
        Json::Number(n) => serde_json::from_str(n).unwrap_or(serde_json::Value::Null),
        Json::Str(s) => serde_json::Value::String(s.clone()),
        Json::Array(xs) => serde_json::Value::Array(xs.iter().map(json_value).collect()),
        Json::Object(es) => serde_json::Value::Object(es.iter().map(|(k, x)| (k.clone(), json_value(x))).collect()),
    }
}

/// Calls `serde_json::Value::to_string` (its `Display`, compact form) on the
/// value a document stands for. Claimed: the text depends on the document
/// only.
#[verifier::external_body]
fn render_json(v: &Json) -> (res: String)
    ensures
        res@ == json_text(*v),
{
    json_value(v).to_string()
}

/// The title an array element gets: a string as it is, anything else as
/// its JSON text.
pub open spec fn element_title(x: Json) -> Seq<char> {
    match x {
        Json::Str(s) => s@,
        _ => json_text(x),
    }
}

pub open spec fn all_plain(items: Seq<DetailItem>, titles: Seq<Seq<char>>) -> bool {
    &&& items.len() == titles.len()
    &&& forall|i: int| 0 <= i < items.len() ==> plain_item(#[trigger] items[i], titles[i], None)
}

/// One plain item per non-blank line, at most 100.
fn line_items(t: &Vec<char>) -> (res: Vec<DetailItem>)
    ensures
        all_plain(res@, line_titles(t@)),
{
    let pieces = text::split_on(t, '\n', '\n');
    let ghost ps = text::char_views(pieces@);
    let mut out: Vec<DetailItem> = Vec::new();
    let mut i: usize = 0;
    assert(ps.take(0) =~= Seq::<Seq<char>>::empty());
    while i < pieces.len()
        invariant
            i <= pieces@.len(),
            ps == text::char_views(pieces@),
            ps == split_by(t@, sep_either('\n', '\n')),
            all_plain(out@, first_n(nonblank_trimmed(ps.take(i as int)), 100)),
        decreases pieces.len() - i,
    {
        let line = text::trim_chars(&pieces[i]);
        let ghost before = nonblank_trimmed(ps.take(i as int));
        assert(ps.take(i + 1).drop_last() =~= ps.take(i as int));
        assert(ps[i as int] == pieces@[i as int]@);
        if line.len() > 0 && out.len() < 100 {
            out.push(plain(text::string_of(&line), None));
            assert(first_n(before.push(trim(ps[i as int])), 100) =~= first_n(before, 100).push(
                trim(ps[i as int]),
            ));
        } else if line.len() > 0 {
            assert(first_n(before.push(trim(ps[i as int])), 100) =~= first_n(before, 100));
        }
        i += 1;
    }
    assert(ps.take(pieces@.len() as int) =~= ps);
    out
}

fn element_items(xs: &Vec<Json>) -> (res: Vec<DetailItem>)
    ensures
        res@.len() == xs@.len(),
        forall|i: int| 0 <= i < xs@.len() ==> plain_item(#[trigger] res@[i], element_title(xs@[i]), None),
{
    let mut out: Vec<DetailItem> = Vec::new();
    let mut i: usize = 0;
    while i < xs.len()
        invariant
            i <= xs@.len(),
            out@.len() == i,
            forall|k: int| 0 <= k < i ==> plain_item(#[trigger] out@[k], element_title(xs@[k]), None),
        decreases xs.len() - i,
    {
        let title = match &xs[i] {
            Json::Str(s) => text::copy_string(s),
            _ => render_json(&xs[i]),
        };
        out.push(plain(title, None));
        i += 1;
    }
    out
}

pub open spec fn structured_wins(s: Option<TaskOutput>) -> bool {
    match s {
        Some(o) => has_content(o),
        None => false,
    }
}

/// A structured output is taken as it is; a missing card is the list card
/// of its items, where it has any.
pub open spec fn structured_result(o: TaskOutput, res: ParsedOutput) -> bool {
    &&& res.summary == o.summary
    &&& res.items@ == o.items@
    &&& match o.card {
        Some(c) => res.card == Some(c),
        None => if o.items@.len() > 0 {
            match res.card {
                Some(c) => is_list_card(c, o.items@),
                None => false,
            }
        } else {
            res.card is None
        },
    }
}

/// A bare card is kept as the card; its listed elements become the items.
pub open spec fn card_result(v: Json, res: ParsedOutput) -> bool {
    &&& res.summary is None
    &&& res.card == Some(v)
    &&& res.items@.len() == card_elements(v).len()
    &&& forall|i: int|
        0 <= i < res.items@.len() ==> plain_item(
            #[trigger] res.items@[i],
            card_title(card_elements(v)[i]),
            card_subtitle(card_elements(v)[i]),
        )
}

pub open spec fn listed(res: ParsedOutput) -> bool {
    &&& res.summary is None
    &&& match res.card {
        Some(c) => is_list_card(c, res.items@),
        None => false,
    }
}

/// A JSON array: one item per element, in a list card.
pub open spec fn array_result(xs: Seq<Json>, res: ParsedOutput) -> bool {
    &&& listed(res)
    &&& res.items@.len() == xs.len()
    &&& forall|i: int| 0 <= i < xs.len() ==> plain_item(#[trigger] res.items@[i], element_title(xs[i]), None)
}

/// A bare card that is kept as it is: an object with a `type` member and
/// neither a `summary` nor a `card` member (so it is not a structured
/// output that happens to carry a type).
pub open spec fn kept_card(v: Json) -> bool {
    is_bare_card(v) && get(v, "summary"@) is None && get(v, "card"@) is None
}

/// Any other text: one item per non-blank line, in a list card.
pub open spec fn lines_result(t: Seq<char>, res: ParsedOutput) -> bool {
    listed(res) && all_plain(res.items@, line_titles(t))
}

pub open spec fn output_spec(
    stdout: Seq<char>,
    structured: Option<TaskOutput>,
    value: Option<Json>,
    res: ParsedOutput,
) -> bool {
    let t = trim(stdout);
    if t.len() == 0 {
        res.summary is None && res.card is None && res.items@.len() == 0
    } else if value matches Some(v) && kept_card(v) {
        card_result(value->Some_0, res)
    } else if structured_wins(structured) {
        structured_result(structured->Some_0, res)
    } else {
        match value {
            Some(v) => if is_bare_card(v) {
                card_result(v, res)
            } else {
                match v {
                    Json::Array(xs) => array_result(xs@, res),
                    _ => lines_result(t, res),
                }
            },
            None => lines_result(t, res),
        }
    }
}

/// Turns a run's standard output into a summary, a card and timeline items.
/// `structured` is the trimmed output read as a structured task output and
/// `value` the trimmed output read as any JSON value, each `None` where the
/// text is not that. A bare card object (a `type`, and no `summary` or
/// `card`) is kept as the card with its items; otherwise a structured
/// output that reports anything wins; any other card object is kept; a
/// JSON array becomes one item per element (a string as it is, anything
/// else as its JSON text); otherwise each non-blank line becomes an item.
pub fn parse_output(stdout: &str, structured: Option<TaskOutput>, value: Option<Json>) -> (res: ParsedOutput)
    ensures
        output_spec(stdout@, structured, value, res),
{
    let trimmed = text::trim_str(stdout);
    if trimmed.len() == 0 {
        return ParsedOutput { summary: None, card: None, items: Vec::new() };
    }
    let keep = match &value {
        Some(v) => match v {
            Json::Object(_) => json_get(v, "type").is_some() && json_get(v, "summary").is_none()
                && json_get(v, "card").is_none(),
            _ => false,
        },
        None => false,
    };
    if keep {
        match value {
            Some(v) => {
                let items = items_from_card(&v);
                return ParsedOutput { summary: None, card: Some(v), items };
            },
            None => {},
        }
    }
    match structured {
        Some(out) => {
            if out.summary.is_some() || out.card.is_some() || out.items.len() > 0 {
                let card = match out.card {
                    Some(c) => Some(c),
                    None => if out.items.len() > 0 {
                        Some(list_card(&out.items))
                    } else {
                        None
                    },
                };
                return ParsedOutput { summary: out.summary, card, items: out.items };
            }
        },
        None => {},
    }
    match value {
        Some(v) => {
            let is_card = match &v {
                Json::Object(_) => json_get(&v, "type").is_some(),
                _ => false,
            };
            if is_card {
                let items = items_from_card(&v);
                return ParsedOutput { summary: None, card: Some(v), items };
            }
            match &v {
                Json::Array(xs) => {
                    let items = element_items(xs);
                    let card = list_card(&items);
                    return ParsedOutput { summary: None, card: Some(card), items };
                },
                _ => {},
            }
        },
        None => {},
    }
    let items = line_items(&trimmed);
    let card = list_card(&items);
    ParsedOutput { summary: None, card: Some(card), items }
}

// ---------------------------------------------------------------------------
// Merging results into a task's result state
// ---------------------------------------------------------------------------

/// The timeline keeps the newest 200 items.
pub const MAX_TIMELINE: usize = 200;

/// The position of the first result state kept for the task `id`.
pub open spec fn result_index(results: Seq<(String, TaskResultState)>, id: Seq<char>) -> Option<int>
    decreases results.len(),
{
    if results.len() == 0 {
        None
    } else if results[0].0@ == id {
        Some(0)
    } else {
        match result_index(results.drop_first(), id) {
            Some(k) => Some(k + 1),
            None => None,
        }
    }
}

proof fn lemma_result_index(results: Seq<(String, TaskResultState)>, id: Seq<char>)
    ensures
        match result_index(results, id) {
            Some(k) => 0 <= k < results.len() && results[k].0@ == id && forall|j: int|
                0 <= j < k ==> results[j].0@ != id,
            None => forall|j: int| 0 <= j < results.len() ==> results[j].0@ != id,
        },
    decreases results.len(),
{
    if results.len() > 0 && results[0].0@ != id {
        lemma_result_index(results.drop_first(), id);
        assert forall|j: int| 0 < j < results.len() implies results[j] == results.drop_first()[j
            - 1] by {}
    }
}

pub fn find_result(results: &Vec<(String, TaskResultState)>, id: &str) -> (res: Option<usize>)
    ensures
        match res {
            Some(i) => result_index(results@, id@) == Some(i as int) && i < results@.len(),
            None => result_index(results@, id@) is None,
        },
{
    proof {
        lemma_result_index(results@, id@);
    }
    let mut i: usize = 0;
    while i < results.len()
        invariant
            i <= results@.len(),
            forall|j: int| 0 <= j < i ==> results@[j].0@ != id@,
            match result_index(results@, id@) {
                Some(k) => 0 <= k < results@.len() && results@[k].0@ == id@ && forall|j: int|
                    0 <= j < k ==> results@[j].0@ != id@,
                None => forall|j: int| 0 <= j < results@.len() ==> results@[j].0@ != id@,
            },
        decreases results.len() - i,
    {
        if text::str_eq(results[i].0.as_str(), id) {
            return Some(i);
        }
        i += 1;
    }
    None
}

/// A run's output merged into a result state: what it reports replaces
/// what was there, new items go in front of the timeline (newest 200 kept),
/// and the state is stamped with the time of the merge.
pub open spec fn merged(
    old_summary: Option<Summary>,
    old_card: Option<Json>,
    old_timeline: Seq<DetailItem>,
    old_cursor: Option<String>,
    parsed: ParsedOutput,
    cursor: Option<String>,
    updated_at: Seq<char>,
    new: TaskResultState,
) -> bool {
    &&& new.summary == (if parsed.summary is Some {
        parsed.summary
    } else {
        old_summary
    })
    &&& new.card == (if parsed.card is Some {
        parsed.card
    } else {
        old_card
    })
    &&& new.cursor == (if cursor is Some {
        cursor
    } else {
        old_cursor
    })
    &&& new.timeline@ == (if parsed.items@.len() > 0 {
        first_n(parsed.items@ + old_timeline, 200)
    } else {
        old_timeline
    })
    &&& ov(new.updated_at) == Some(updated_at)
}

/// What merging a run's output does to a task's result state: a summary,
/// card or cursor the run did not report is kept as it was, one it did
/// report replaces the old; the run's items go in front of the timeline
/// (keeping the newest 200), a run without items leaves the timeline as it
/// was; and the state is stamped with the merge time.
pub proof fn lemma_merge_keeps_what_is_not_reported(
    old_summary: Option<Summary>,
    old_card: Option<Json>,
    old_timeline: Seq<DetailItem>,
    old_cursor: Option<String>,
    parsed: ParsedOutput,
    cursor: Option<String>,
    updated_at: Seq<char>,
    new: TaskResultState,
)
    requires
        merged(old_summary, old_card, old_timeline, old_cursor, parsed, cursor, updated_at, new),
    ensures
        parsed.card is None ==> new.card == old_card,
        parsed.card is Some ==> new.card == parsed.card,
        parsed.summary is None ==> new.summary == old_summary,
        parsed.summary is Some ==> new.summary == parsed.summary,
        cursor is None ==> new.cursor == old_cursor,
        cursor is Some ==> new.cursor == cursor,
        parsed.items@.len() == 0 ==> new.timeline@ == old_timeline,
        new.timeline@.len() == (if parsed.items@.len() + old_timeline.len() <= 200 {
            (parsed.items@.len() + old_timeline.len()) as int
        } else if parsed.items@.len() == 0 {
            old_timeline.len() as int
        } else {
            200int
        }),
        forall|i: int|
            0 <= i < parsed.items@.len() && i < 200 ==> #[trigger] new.timeline@[i] == parsed.items@[i],
        parsed.items@.len() > 0 ==> forall|i: int|
            parsed.items@.len() <= i < new.timeline@.len() ==> #[trigger] new.timeline@[i]
                == old_timeline[i - parsed.items@.len()],
        new.updated_at matches Some(u) && u@ == updated_at,
{
}

fn merge_into(
    st: TaskResultState,
    parsed: ParsedOutput,
    cursor: Option<String>,
    updated_at: String,
) -> (res: TaskResultState)
    ensures
        merged(st.summary, st.card, st.timeline@, st.cursor, parsed, cursor, updated_at@, res),
{
    let TaskResultState { summary, card, timeline, updated_at: _, cursor: old_cursor } = st;
    let ParsedOutput { summary: new_summary, card: new_card, items } = parsed;
    let summary = if new_summary.is_some() {
        new_summary
    } else {
        summary
    };
    let card = if new_card.is_some() {
        new_card
    } else {
        card
    };
    let cursor = if cursor.is_some() {
        cursor
    } else {
        old_cursor
    };
    let timeline = if items.len() > 0 {
        let mut tl = items;
        let mut rest = timeline;
        let ghost front = tl@;
        let ghost back = rest@;
        tl.append(&mut rest);
        assert(tl@ =~= front + back);
        if tl.len() > MAX_TIMELINE {
            tl.truncate(MAX_TIMELINE);
        }
        assert(tl@ =~= first_n(front + back, 200));
        tl
    } else {
        timeline
    };
    TaskResultState { summary, card, timeline, updated_at: Some(updated_at), cursor }
}

/// Merges one parsed output into the task's result state, creating the
/// state where the task has none yet. Returns how many timeline items the
/// output added.
/// No two result states are kept for the same task id.
pub open spec fn distinct_ids(r: Seq<(String, TaskResultState)>) -> bool {
    forall|i: int, j: int| 0 <= i < j < r.len() ==> #[trigger] r[i].0@ != #[trigger] r[j].0@
}

pub fn apply_result(
    results: &mut Vec<(String, TaskResultState)>,
    task_id: &str,
    parsed: ParsedOutput,
    cursor: Option<String>,
    updated_at: String,
) -> (added: usize)
    ensures
        added == parsed.items@.len(),
        distinct_ids(old(results)@) ==> distinct_ids(final(results)@),
        match result_index(old(results)@, task_id@) {
            Some(k) => {
                &&& final(results)@.len() == old(results)@.len()
                &&& final(results)@[k].0 == old(results)@[k].0
                &&& merged(
                    old(results)@[k].1.summary,
                    old(results)@[k].1.card,
                    old(results)@[k].1.timeline@,
                    old(results)@[k].1.cursor,
                    parsed,
                    cursor,
                    updated_at@,
                    final(results)@[k].1,
                )
                &&& forall|j: int|
                    0 <= j < old(results)@.len() && j != k ==> #[trigger] final(results)@[j]
                        == old(results)@[j]
            },
            None => {
                &&& final(results)@.len() == old(results)@.len() + 1
                &&& final(results)@.take(old(results)@.len() as int) == old(results)@
                &&& final(results)@.last().0@ == task_id@
                &&& merged(
                    None,
                    None,
                    Seq::empty(),
                    None,
                    parsed,
                    cursor,
                    updated_at@,
                    final(results)@.last().1,
                )
            },
        },
{
    let added = parsed.items.len();
    proof {
        lemma_result_index(old(results)@, task_id@);
    }
    match find_result(results, task_id) {
        Some(k) => {
            let (key, st) = results.remove(k);
            let st = merge_into(st, parsed, cursor, updated_at);
            results.insert(k, (key, st));
            assert forall|j: int|
                0 <= j < old(results)@.len() && j != k implies #[trigger] results@[j]
                == old(results)@[j] by {
                if j < k {
                } else {
                }
            }
        },
        None => {
            let fresh = TaskResultState {
                summary: None,
                card: None,
                timeline: Vec::new(),
                updated_at: None,
                cursor: None,
            };
            let st = merge_into(fresh, parsed, cursor, updated_at);
            results.push((text::string_from(task_id), st));
            assert(results@.take(old(results)@.len() as int) =~= old(results)@);
            assert forall|i: int, j: int|
                distinct_ids(old(results)@) && 0 <= i < j < results@.len() implies #[trigger] results@[i].0@
                != #[trigger] results@[j].0@ by {
                if j == old(results)@.len() {
                    assert(results@[i] == old(results)@[i]);
                } else {
                    assert(results@[i] == old(results)@[i]);
                    assert(results@[j] == old(results)@[j]);
                }
            }
        },
    }
    added
}

// ---------------------------------------------------------------------------
// The run loop
// ---------------------------------------------------------------------------

/// What the run loop learns when it polls a running child.
pub enum Poll {
    /// Someone asked for the run to be terminated.
    KillRequested,
    /// The child has exited.
    Exited { success: bool, code: Option<i32> },
    /// The child is still running, this many whole seconds after it started.
    Running { elapsed_secs: i64 },
    /// Waiting on the child failed.
    WaitFailed,
}

/// What the run loop does next.
pub enum PollAction {
    /// Kill the whole process tree; the run ends with this status.
    Stop(ExecStatus),
    /// The run has ended with this status and exit code.
    Finish(ExecStatus, Option<i32>),
    /// Sleep a little and poll again.
    Wait,
}

/// One step of the run loop. A kill request always wins; a timeout of 0
/// means the run may take as long as it likes.
pub fn poll_step(timeout_secs: u64, poll: Poll) -> (res: PollAction)
    ensures
        match poll {
            Poll::KillRequested => res == PollAction::Stop(ExecStatus::Killed),
            Poll::Exited { success, code } => res == PollAction::Finish(
                if success {
                    ExecStatus::Success
                } else {
                    ExecStatus::Failed
                },
                code,
            ),
            Poll::Running { elapsed_secs } => if timeout_secs > 0 && elapsed_secs as u64
                >= timeout_secs {
                res == PollAction::Stop(ExecStatus::TimedOut)
            } else {
                res is Wait
            },
            Poll::WaitFailed => res == PollAction::Finish(ExecStatus::Failed, None),
        },
{
    match poll {
        Poll::KillRequested => PollAction::Stop(ExecStatus::Killed),
        Poll::Exited { success, code } => PollAction::Finish(
            if success {
                ExecStatus::Success
            } else {
                ExecStatus::Failed
            },
            code,
        ),
        Poll::Running { elapsed_secs } => {
            if timeout_secs > 0 && elapsed_secs as u64 >= timeout_secs {
                PollAction::Stop(ExecStatus::TimedOut)
            } else {
                PollAction::Wait
            }
        },
        Poll::WaitFailed => PollAction::Finish(ExecStatus::Failed, None),
    }
}

/// The text canned answers are fed as: non-empty input, ending in a newline.
pub open spec fn feed_spec(stdin: Option<Seq<char>>) -> Option<Seq<char>> {
    match stdin {
        Some(s) => if s.len() == 0 {
            None
        } else if s.last() == '\n' {
            Some(s)
        } else {
            Some(s.push('\n'))
        },
        None => None,
    }
}

/// What is written to a task's standard input, if anything: its canned
/// answers, with a final newline added where they lack one.
pub fn stdin_feed(stdin: &Option<String>) -> (res: Option<String>)
    ensures
        ov(res) == feed_spec(ov(*stdin)),
{
    match stdin {
        Some(s) => {
            let mut v = text::chars_of(s.as_str());
            if v.len() == 0 {
                return None;
            }
            if v[v.len() - 1] != '\n' {
                v.push('\n');
            }
            Some(text::string_of(&v))
        },
        None => None,
    }
}

/// A task's persistent state directory: `<data dir>/state/<task id>`.
pub open spec fn state_dir_spec(data_dir: Seq<char>, task_id: Seq<char>) -> Seq<char> {
    crate::paths::path_join(crate::paths::path_join(data_dir, "state"@), task_id)
}

pub fn task_state_dir(data_dir: &str, task_id: &str) -> (res: String)
    ensures
        res@ == state_dir_spec(data_dir@, task_id@),
{
    let state = crate::paths::join(data_dir, "state");
    crate::paths::join(state.as_str(), task_id)
}

/// The environment a run gets: its state directory, the task id, and the
/// time and checkpoint of the last result, where there are any.
pub open spec fn env_spec(
    task_dir: Seq<char>,
    task_id: Seq<char>,
    last_run: Option<Seq<char>>,
    cursor: Option<Seq<char>>,
) -> Seq<(Seq<char>, Seq<char>)> {
    let base = seq![("MOSAIC_TASK_DIR"@, task_dir), ("MOSAIC_TASK_ID"@, task_id)];
    let with_run = match last_run {
        Some(t) => base.push(("MOSAIC_LAST_RUN"@, t)),
        None => base,
    };
    match cursor {
        Some(c) => with_run.push(("MOSAIC_CURSOR"@, c)),
        None => with_run,
    }
}

pub open spec fn pair_views(v: Seq<(String, String)>) -> Seq<(Seq<char>, Seq<char>)> {
    v.map_values(|p: (String, String)| (p.0@, p.1@))
}

pub fn task_env(task_dir: &str, task_id: &str, last_run: &Option<String>, cursor: &Option<String>) -> (res: Vec<(String, String)>)
    ensures
        pair_views(res@) == env_spec(task_dir@, task_id@, ov(*last_run), ov(*cursor)),
{
    let mut out: Vec<(String, String)> = Vec::new();
    out.push((text::string_from("MOSAIC_TASK_DIR"), text::string_from(task_dir)));
    out.push((text::string_from("MOSAIC_TASK_ID"), text::string_from(task_id)));
    match last_run {
        Some(t) => out.push((text::string_from("MOSAIC_LAST_RUN"), text::copy_string(t))),
        None => {},
    }
    match cursor {
        Some(c) => out.push((text::string_from("MOSAIC_CURSOR"), text::copy_string(c))),
        None => {},
    }
    assert(pair_views(out@) =~= env_spec(task_dir@, task_id@, ov(*last_run), ov(*cursor)));
    out
}

/// The arguments joined by single spaces.
pub open spec fn joined(args: Seq<Seq<char>>) -> Seq<char>
    decreases args.len(),
{
    if args.len() == 0 {
        Seq::empty()
    } else if args.len() == 1 {
        args[0]
    } else {
        joined(args.drop_last()) + " "@ + args.last()
    }
}

/// The command line shown for a running task: the command, a space, and
/// the arguments joined by spaces.
pub fn command_line(command: &str, args: &Vec<String>) -> (res: String)
    ensures
        res@ == command@ + " "@ + joined(text::views(args@)),
{
    let mut out = text::chars_of(command);
    text::append_str(&mut out, " ");
    let ghost head = out@;
    let mut i: usize = 0;
    while i < args.len()
        invariant
            i <= args@.len(),
            out@ == head + joined(text::views(args@.take(i as int))),
        decreases args.len() - i,
    {
        proof {
            assert(text::views(args@.take(i + 1)).drop_last() =~= text::views(args@.take(i as int)));
        }
        if i > 0 {
            text::append_str(&mut out, " ");
        }
        text::append_str(&mut out, args[i].as_str());
        proof {
            assert(text::views(args@.take(i + 1)).last() == args@[i as int]@);
            if i == 0 {
                assert(text::views(args@.take(1)).len() == 1);
            }
        }
        i += 1;
    }
    assert(args@.take(args@.len() as int) =~= args@);
    text::string_of(&out)
}

// ---------------------------------------------------------------------------
// Recording a run
// ---------------------------------------------------------------------------

/// The execution log keeps the newest 200 records.
pub const MAX_EXECUTIONS: usize = 200;

/// Adds a record at the front of the execution log and keeps the newest 200.
pub fn begin_execution(executions: &mut Vec<Execution>, e: Execution)
    ensures
        final(executions)@ == first_n(seq![e] + old(executions)@, 200),
{
    executions.insert(0, e);
    if executions.len() > MAX_EXECUTIONS {
        executions.truncate(MAX_EXECUTIONS);
    }
    assert(executions@ =~= first_n(seq![e] + old(executions)@, 200));
}

/// The record of a run as it starts.
pub fn running_execution(
    exec_id: String,
    task: &Task,
    started_at: String,
    trigger: String,
) -> (e: Execution)
    ensures
        e.id == exec_id,
        e.task_id@ == task.id@,
        e.nickname@ == task.nickname@,
        e.started_at == started_at,
        e.finished_at is None,
        e.status == ExecStatus::Running,
        e.exit_code is None,
        e.trigger == trigger,
        e.error is None,
        e.item_count == 0,
        e.items@.len() == 0,
{
    Execution {
        id: exec_id,
        task_id: text::copy_string(&task.id),
        nickname: text::copy_string(&task.nickname),
        started_at,
        finished_at: None,
        status: ExecStatus::Running,
        exit_code: None,
        trigger,
        error: None,
        item_count: 0,
        items: Vec::new(),
    }
}

/// A notification with exactly these contents, unread.
pub open spec fn notice(
    n: Notification,
    id: Seq<char>,
    level: Seq<char>,
    title: Seq<char>,
    body: Option<Seq<char>>,
    at: Seq<char>,
    task_id: Option<Seq<char>>,
) -> bool {
    &&& n.id@ == id
    &&& n.level@ == level
    &&& n.title@ == title
    &&& ov(n.body) == body
    &&& n.at@ == at
    &&& !n.read
    &&& ov(n.task_id) == task_id
}

pub fn make_notice(
    id: String,
    level: &str,
    title: String,
    body: Option<String>,
    at: String,
    task_id: Option<String>,
) -> (n: Notification)
    ensures
        notice(n, id@, level@, title@, ov(body), at@, ov(task_id)),
{
    Notification { id, level: text::string_from(level), title, body, at, read: false, task_id }
}

/// The record of a run that could not even be started.
pub open spec fn failed_record(
    e: Execution,
    exec_id: Seq<char>,
    task: Task,
    started_at: Seq<char>,
    finished_at: Seq<char>,
    trigger: Seq<char>,
    err: Seq<char>,
) -> bool {
    &&& e.id@ == exec_id
    &&& e.task_id@ == task.id@
    &&& e.nickname@ == task.nickname@
    &&& e.started_at@ == started_at
    &&& ov(e.finished_at) == Some(finished_at)
    &&& e.status == ExecStatus::Failed
    &&& e.exit_code is None
    &&& e.trigger@ == trigger
    &&& ov(e.error) == Some(err)
    &&& e.item_count == 0
    &&& e.items@.len() == 0
}

/// Records a run whose process could not be spawned: a resident task's
/// switch goes back off, a failed record heads the execution log (newest
/// 200 kept) and a danger notification heads the notification centre.
pub fn record_failed(
    tasks: &mut Vec<Task>,
    executions: &mut Vec<Execution>,
    notifications: &mut Vec<Notification>,
    task: &Task,
    exec_id: &str,
    started_at: &str,
    finished_at: &str,
    trigger: &str,
    err: &str,
    notice_id: String,
    at: String,
)
    ensures
        task.lifecycle == Lifecycle::Resident ==> match library::task_index(old(tasks)@, task.id@) {
            Some(k) => final(tasks)@ == old(tasks)@.update(k, Task { enabled: false, ..old(tasks)@[k] }),
            None => final(tasks)@ == old(tasks)@,
        },
        task.lifecycle != Lifecycle::Resident ==> final(tasks)@ == old(tasks)@,
        final(executions)@.len() == notifications::min(200, (old(executions)@.len() + 1) as int),
        failed_record(final(executions)@[0], exec_id@, *task, started_at@, finished_at@, trigger@, err@),
        final(executions)@.skip(1) == first_n(old(executions)@, 199),
        final(notifications)@.len() == notifications::min(100, (old(notifications)@.len() + 1) as int),
        notice(
            final(notifications)@[0],
            notice_id@,
            "danger"@,
            task.nickname@ + " 启动失败"@,
            Some(err@),
            at@,
            Some(task.id@),
        ),
        final(notifications)@.skip(1) == old(notifications)@.take(
            final(notifications)@.len() - 1,
        ),
{
    if task.lifecycle == Lifecycle::Resident {
        library::disable_task(tasks, task.id.as_str());
    }
    let e = Execution {
        id: text::string_from(exec_id),
        task_id: text::copy_string(&task.id),
        nickname: text::copy_string(&task.nickname),
        started_at: text::string_from(started_at),
        finished_at: Some(text::string_from(finished_at)),
        status: ExecStatus::Failed,
        exit_code: None,
        trigger: text::string_from(trigger),
        error: Some(text::string_from(err)),
        item_count: 0,
        items: Vec::new(),
    };
    begin_execution(executions, e);
    assert(executions@.skip(1) =~= first_n(old(executions)@, 199));
    let title = text::concat(task.nickname.as_str(), " 启动失败");
    let n = make_notice(
        notice_id,
        "danger",
        title,
        Some(text::string_from(err)),
        at,
        Some(text::copy_string(&task.id)),
    );
    notifications::push_notification(notifications, n);
    assert(notifications@.skip(1) =~= old(notifications)@.take(notifications@.len() - 1));
}

/// The name of a status as the failure notice spells it.
pub open spec fn status_name(status: ExecStatus) -> Seq<char> {
    match status {
        ExecStatus::Running => "Running"@,
        ExecStatus::Success => "Ok"@,
        ExecStatus::Failed => "Failed"@,
        ExecStatus::TimedOut => "TimedOut"@,
        ExecStatus::Killed => "Killed"@,
    }
}

fn status_text(status: ExecStatus) -> (res: String)
    ensures
        res@ == status_name(status),
{
    match status {
        ExecStatus::Running => text::string_from("Running"),
        ExecStatus::Success => text::string_from("Ok"),
        ExecStatus::Failed => text::string_from("Failed"),
        ExecStatus::TimedOut => text::string_from("TimedOut"),
        ExecStatus::Killed => text::string_from("Killed"),
    }
}

/// Why a run failed: its trimmed standard error, or the status's name where
/// it wrote nothing.
pub open spec fn failure_detail(status: ExecStatus, stderr: Seq<char>) -> Seq<char> {
    if trim(stderr).len() > 0 {
        trim(stderr)
    } else {
        status_name(status)
    }
}

/// The notification a finished run leaves: a failed or timed-out run is a
/// danger, a resident plugin that exited on its own a warning; a killed run
/// and a successful script leave none.
pub open spec fn end_notice_spec(
    res: Option<Notification>,
    nickname: Seq<char>,
    task_id: Seq<char>,
    status: ExecStatus,
    resident: bool,
    stderr: Seq<char>,
    id: Seq<char>,
    at: Seq<char>,
) -> bool {
    if status != ExecStatus::Success && status != ExecStatus::Killed {
        match res {
            Some(n) => notice(
                n,
                id,
                "danger"@,
                nickname + " 运行失败"@,
                Some(failure_detail(status, stderr)),
                at,
                Some(task_id),
            ),
            None => false,
        }
    } else if resident && status == ExecStatus::Success {
        match res {
            Some(n) => notice(
                n,
                id,
                "warning"@,
                nickname + " 已停止"@,
                Some("常驻插件已经退出，开关已自动关闭。"@),
                at,
                Some(task_id),
            ),
            None => false,
        }
    } else {
        res is None
    }
}

pub fn end_notification(
    nickname: &str,
    task_id: &str,
    status: ExecStatus,
    resident: bool,
    stderr: &str,
    id: String,
    at: String,
) -> (res: Option<Notification>)
    ensures
        end_notice_spec(res, nickname@, task_id@, status, resident, stderr@, id@, at@),
{
    if status != ExecStatus::Success && status != ExecStatus::Killed {
        let trimmed = text::trim_str(stderr);
        let detail = if trimmed.len() > 0 {
            text::string_of(&trimmed)
        } else {
            status_text(status)
        };
        let title = text::concat(nickname, " 运行失败");
        Some(make_notice(id, "danger", title, Some(detail), at, Some(text::string_from(task_id))))
    } else if resident && status == ExecStatus::Success {
        let title = text::concat(nickname, " 已停止");
        Some(
            make_notice(
                id,
                "warning",
                title,
                Some(text::string_from("常驻插件已经退出，开关已自动关闭。")),
                at,
                Some(text::string_from(task_id)),
            ),
        )
    } else {
        None
    }
}

/// A resident plugin's switch goes off when its process ends, unless the
/// user stopped it.
pub open spec fn switch_off_after_spec(resident: bool, status: ExecStatus) -> bool {
    resident && status != ExecStatus::Killed
}

pub fn switch_off_after(resident: bool, status: ExecStatus) -> (res: bool)
    ensures
        res == switch_off_after_spec(resident, status),
{
    resident && status != ExecStatus::Killed
}

/// The position of the first execution record with this id.
pub open spec fn exec_index(es: Seq<Execution>, id: Seq<char>) -> Option<int>
    decreases es.len(),
{
    if es.len() == 0 {
        None
    } else if es[0].id@ == id {
        Some(0)
    } else {
        match exec_index(es.drop_first(), id) {
            Some(k) => Some(k + 1),
            None => None,
        }
    }
}

proof fn lemma_exec_index(es: Seq<Execution>, id: Seq<char>)
    ensures
        match exec_index(es, id) {
            Some(k) => 0 <= k < es.len() && es[k].id@ == id && forall|j: int|
                0 <= j < k ==> es[j].id@ != id,
            None => forall|j: int| 0 <= j < es.len() ==> es[j].id@ != id,
        },
    decreases es.len(),
{
    if es.len() > 0 && es[0].id@ != id {
        lemma_exec_index(es.drop_first(), id);
        assert forall|j: int| 0 < j < es.len() implies es[j] == es.drop_first()[j - 1] by {}
    }
}

pub fn find_execution(es: &Vec<Execution>, id: &str) -> (res: Option<usize>)
    ensures
        match res {
            Some(i) => exec_index(es@, id@) == Some(i as int) && i < es@.len(),
            None => exec_index(es@, id@) is None,
        },
{
    proof {
        lemma_exec_index(es@, id@);
    }
    let mut i: usize = 0;
    while i < es.len()
        invariant
            i <= es@.len(),
            forall|j: int| 0 <= j < i ==> es@[j].id@ != id@,
            match exec_index(es@, id@) {
                Some(k) => 0 <= k < es@.len() && es@[k].id@ == id@ && forall|j: int|
                    0 <= j < k ==> es@[j].id@ != id@,
                None => forall|j: int| 0 <= j < es@.len() ==> es@[j].id@ != id@,
            },
        decreases es.len() - i,
    {
        if text::str_eq(es[i].id.as_str(), id) {
            return Some(i);
        }
        i += 1;
    }
    None
}

/// The record of a run once it has ended.
pub open spec fn finished_record(
    old: Execution,
    new: Execution,
    finished_at: Seq<char>,
    status: ExecStatus,
    exit_code: Option<i32>,
    item_count: usize,
    items: Seq<DetailItem>,
    stderr: Seq<char>,
) -> bool {
    &&& new.id == old.id
    &&& new.task_id == old.task_id
    &&& new.nickname == old.nickname
    &&& new.started_at == old.started_at
    &&& new.trigger == old.trigger
    &&& ov(new.finished_at) == Some(finished_at)
    &&& new.status == status
    &&& new.exit_code == exit_code
    &&& new.item_count == item_count
    &&& new.items@ == items
    &&& if status != ExecStatus::Success && trim(stderr).len() > 0 {
        ov(new.error) == Some(trim(stderr))
    } else {
        new.error == old.error
    }
}

/// Completes the record of a run: its end time, status, exit code and
/// products, and its trimmed standard error where it did not succeed.
pub fn finish_execution(
    executions: &mut Vec<Execution>,
    exec_id: &str,
    finished_at: String,
    status: ExecStatus,
    exit_code: Option<i32>,
    item_count: usize,
    items: Vec<DetailItem>,
    stderr: &str,
)
    ensures
        final(executions)@.len() == old(executions)@.len(),
        match exec_index(old(executions)@, exec_id@) {
            Some(k) => {
                &&& finished_record(
                    old(executions)@[k],
                    final(executions)@[k],
                    finished_at@,
                    status,
                    exit_code,
                    item_count,
                    items@,
                    stderr@,
                )
                &&& forall|j: int|
                    0 <= j < old(executions)@.len() && j != k ==> #[trigger] final(executions)@[j]
                        == old(executions)@[j]
            },
            None => final(executions)@ == old(executions)@,
        },
{
    match find_execution(executions, exec_id) {
        Some(k) => {
            let mut e = executions.remove(k);
            e.finished_at = Some(finished_at);
            e.status = status;
            e.exit_code = exit_code;
            e.item_count = item_count;
            e.items = items;
            if status != ExecStatus::Success {
                let trimmed = text::trim_str(stderr);
                if trimmed.len() > 0 {
                    e.error = Some(text::string_of(&trimmed));
                }
            }
            executions.insert(k, e);
            assert forall|j: int|
                0 <= j < old(executions)@.len() && j != k implies #[trigger] executions@[j]
                == old(executions)@[j] by {
                if j < k {
                } else {
                }
            }
        },
        None => {},
    }
}

// ---------------------------------------------------------------------------
// File products
// ---------------------------------------------------------------------------

pub open spec fn ends_with_any(s: Seq<char>, exts: Seq<Seq<char>>) -> bool {
    exists|i: int| 0 <= i < exts.len() && text::ends_with(s, #[trigger] exts[i])
}

pub open spec fn image_exts() -> Seq<Seq<char>> {
    seq![".jpg"@, ".jpeg"@, ".png"@, ".gif"@, ".webp"@, ".bmp"@, ".avif"@, ".svg"@]
}

pub open spec fn video_exts() -> Seq<Seq<char>> {
    seq![".mp4"@, ".webm"@, ".mkv"@, ".mov"@, ".avi"@, ".m4v"@]
}

pub open spec fn audio_exts() -> Seq<Seq<char>> {
    seq![".mp3"@, ".wav"@, ".flac"@, ".m4a"@, ".aac"@, ".ogg"@, ".opus"@]
}

/// How the detail view renders a file, by the lower-cased name's extension.
pub open spec fn file_kind_spec(name: Seq<char>) -> Seq<char> {
    let lower = text::unicode_lowercase(name);
    if ends_with_any(lower, image_exts()) {
        "image"@
    } else if ends_with_any(lower, video_exts()) {
        "video"@
    } else if ends_with_any(lower, audio_exts()) {
        "audio"@
    } else {
        "file"@
    }
}

fn ends_with_any_exec(s: &Vec<char>, exts: &Vec<&str>) -> (res: bool)
    ensures
        res == exists|i: int| 0 <= i < exts@.len() && text::ends_with(s@, #[trigger] exts@[i]@),
{
    let mut i: usize = 0;
    while i < exts.len()
        invariant
            i <= exts@.len(),
            forall|k: int| 0 <= k < i ==> !text::ends_with(s@, #[trigger] exts@[k]@),
        decreases exts.len() - i,
    {
        if text::ends_with_str(s, exts[i]) {
            return true;
        }
        i += 1;
    }
    false
}

proof fn lemma_exts(exts: Vec<&str>, spec_exts: Seq<Seq<char>>, s: Seq<char>)
    requires
        exts@.len() == spec_exts.len(),
        forall|i: int| 0 <= i < exts@.len() ==> exts@[i]@ == spec_exts[i],
    ensures
        (exists|i: int| 0 <= i < exts@.len() && text::ends_with(s, #[trigger] exts@[i]@))
            == ends_with_any(s, spec_exts),
{
    if ends_with_any(s, spec_exts) {
        let i = choose|i: int| 0 <= i < spec_exts.len() && text::ends_with(s, #[trigger] spec_exts[i]);
        assert(text::ends_with(s, exts@[i]@));
    }
    if exists|i: int| 0 <= i < exts@.len() && text::ends_with(s, #[trigger] exts@[i]@) {
        let i = choose|i: int| 0 <= i < exts@.len() && text::ends_with(s, #[trigger] exts@[i]@);
        assert(text::ends_with(s, spec_exts[i]));
    }
}

/// Classifies a file by its extension, ignoring case: image, video, audio or
/// plain file.
pub fn file_kind(name: &str) -> (res: &'static str)
    ensures
        res@ == file_kind_spec(name@),
{
    let lower_s = text::to_lowercase(name);
    let lower = text::chars_of(lower_s.as_str());
    let images = vec![".jpg", ".jpeg", ".png", ".gif", ".webp", ".bmp", ".avif", ".svg"];
    let videos = vec![".mp4", ".webm", ".mkv", ".mov", ".avi", ".m4v"];
    let audios = vec![".mp3", ".wav", ".flac", ".m4a", ".aac", ".ogg", ".opus"];
    proof {
        reveal_strlit(".jpg");
        reveal_strlit(".jpeg");
        reveal_strlit(".png");
        reveal_strlit(".gif");
        reveal_strlit(".webp");
        reveal_strlit(".bmp");
        reveal_strlit(".avif");
        reveal_strlit(".svg");
        reveal_strlit(".mp4");
        reveal_strlit(".webm");
        reveal_strlit(".mkv");
        reveal_strlit(".mov");
        reveal_strlit(".avi");
        reveal_strlit(".m4v");
        reveal_strlit(".mp3");
        reveal_strlit(".wav");
        reveal_strlit(".flac");
        reveal_strlit(".m4a");
        reveal_strlit(".aac");
        reveal_strlit(".ogg");
        reveal_strlit(".opus");
        lemma_exts(images, image_exts(), lower@);
        lemma_exts(videos, video_exts(), lower@);
        lemma_exts(audios, audio_exts(), lower@);
    }
    if ends_with_any_exec(&lower, &images) {
        "image"
    } else if ends_with_any_exec(&lower, &videos) {
        "video"
    } else if ends_with_any_exec(&lower, &audios) {
        "audio"
    } else {
        "file"
    }
}

pub open spec fn p2(n: nat) -> nat
    decreases n,
{
    if n == 0 {
        1
    } else {
        2 * p2((n - 1) as nat)
    }
}

/// The number of binary digits of `b`.
pub open spec fn bit_len(b: nat) -> nat
    decreases b,
{
    if b == 0 {
        0
    } else {
        1 + bit_len(b / 2)
    }
}

/// The value of `b as f64`: `b` rounded to 53 significant bits, ties to even.
pub open spec fn nearest_f64(b: nat) -> nat {
    if b < p2(53) {
        b
    } else {
        let s = (bit_len(b) - 53) as nat;
        let r = b / p2(s);
        let rem = b % p2(s);
        let half = p2(s) / 2;
        let r2 = if rem > half || (rem == half && r % 2 == 1) {
            r + 1
        } else {
            r
        };
        r2 * p2(s)
    }
}

/// `x / d` printed with one decimal, rounded to nearest, ties to even.
pub open spec fn one_decimal(x: nat, d: nat) -> Seq<char>
    recommends
        d > 0,
{
    let q = (10 * x) / d;
    let r = (10 * x) % d;
    let rounded = if 2 * r > d || (2 * r == d && q % 2 == 1) {
        q + 1
    } else {
        q
    };
    text::decimal(rounded / 10) + "."@ + seq![text::digit_char(rounded % 10)]
}

/// A byte count in B, KB, MB or GB, as the size of a file product is shown:
/// whole bytes below 1 KB, one decimal above.
pub open spec fn human_size_spec(bytes: nat) -> Seq<char> {
    let x = nearest_f64(bytes);
    if x < 1024 {
        text::decimal(bytes) + " B"@
    } else if x < 1048576 {
        one_decimal(x, 1024) + " KB"@
    } else if x < 1073741824 {
        one_decimal(x, 1048576) + " MB"@
    } else {
        one_decimal(x, 1073741824) + " GB"@
    }
}

proof fn lemma_p2_facts(n: nat)
    ensures
        p2(n) >= 1,
        n <= 11 ==> p2(n) <= 2048,
        p2(53) == 9007199254740992,
    decreases n,
{
    reveal_with_fuel(p2, 54);
    if n > 0 {
        lemma_p2_facts((n - 1) as nat);
    }
}

proof fn lemma_bit_len_bound(b: nat, n: nat)
    requires
        b < p2(n),
    ensures
        bit_len(b) <= n,
    decreases n,
{
    if n > 0 && b > 0 {
        lemma_bit_len_bound(b / 2, (n - 1) as nat);
    }
}

proof fn lemma_bit_len_low(b: nat, n: nat)
    requires
        b >= p2(n),
    ensures
        bit_len(b) >= n + 1,
    decreases n,
{
    lemma_p2_facts(n);
    if n > 0 {
        lemma_bit_len_low(b / 2, (n - 1) as nat);
    }
}

fn nearest_f64_exec(b: u64) -> (res: u128)
    ensures
        res == nearest_f64(b as nat),
        res <= 18446744073709553664u128,
{
    proof {
        lemma_p2_facts(53);
    }
    if b < 9007199254740992u64 {
        return b as u128;
    }
    let mut n: u64 = 0;
    let mut v: u64 = b;
    assert(p2(0) == 1);
    assert((b as nat) / 1 == b as nat);
    while v > 0
        invariant
            bit_len(b as nat) == n + bit_len(v as nat),
            n <= 64,
            v as nat <= (b as nat) / p2(n as nat),
        decreases v,
    {
        proof {
            lemma_p2_facts(n as nat);
            assert(p2((n + 1) as nat) == 2 * p2(n as nat));
            vstd::arithmetic::div_mod::lemma_div_denominator(b as int, p2(n as nat) as int, 2);
            if n == 64 {
                assert(p2(64) == 18446744073709551616) by {
                    reveal_with_fuel(p2, 65);
                }
                assert((b as nat) / p2(64) == 0) by {
                    vstd::arithmetic::div_mod::lemma_basic_div(b as int, p2(64) as int);
                }
            }
        }
        v = v / 2;
        n = n + 1;
    }
    proof {
        lemma_bit_len_low(b as nat, 53);
        assert(p2(64) == 18446744073709551616) by {
            reveal_with_fuel(p2, 65);
        }
        lemma_bit_len_bound(b as nat, 64);
    }
    let s: u64 = n - 53;
    let mut p: u128 = 1;
    let mut k: u64 = 0;
    while k < s
        invariant
            k <= s,
            s <= 11,
            p == p2(k as nat),
            1 <= p <= 2048,
        decreases s - k,
    {
        proof {
            lemma_p2_facts((k + 1) as nat);
        }
        p = p * 2;
        k = k + 1;
    }
    let bb: u128 = b as u128;
    let r = bb / p;
    let rem = bb % p;
    let half = p / 2;
    let r2 = if rem > half || (rem == half && r % 2 == 1) {
        r + 1
    } else {
        r
    };
    proof {
        lemma_p2_facts(s as nat);
        assert(r * p <= bb) by (nonlinear_arith)
            requires
                r == bb / p,
                p >= 1,
        ;
        assert(r2 * p <= bb + p) by (nonlinear_arith)
            requires
                r * p <= bb,
                r2 <= r + 1,
                p >= 1,
        ;
    }
    r2 * p
}

/// A byte count as the detail view shows a file's size.
pub fn human_size(bytes: u64) -> (res: String)
    ensures
        res@ == human_size_spec(bytes as nat),
{
    let x = nearest_f64_exec(bytes);
    if x < 1024 {
        let mut out: Vec<char> = Vec::new();
        text::push_decimal(&mut out, bytes);
        text::append_str(&mut out, " B");
        return text::string_of(&out);
    }
    let (d, unit): (u128, &str) = if x < 1048576 {
        (1024, " KB")
    } else if x < 1073741824 {
        (1048576, " MB")
    } else {
        (1073741824, " GB")
    };
    let t = x * 10;
    let q = t / d;
    let r = t % d;
    let rounded = if 2 * r > d || (2 * r == d && q % 2 == 1) {
        q + 1
    } else {
        q
    };
    proof {
        assert(q * d <= t) by (nonlinear_arith)
            requires
                q == t / d,
                d >= 1024,
        ;
        assert(q * 1024 <= q * d) by (nonlinear_arith)
            requires
                d >= 1024,
        ;
    }
    let whole = (rounded / 10) as u64;
    let frac = (rounded % 10) as u64;
    let mut out: Vec<char> = Vec::new();
    text::push_decimal(&mut out, whole);
    text::append_str(&mut out, ".");
    out.push(text::digit_of(frac));
    text::append_str(&mut out, unit);
    text::string_of(&out)
}

/// A file product as a timeline item: its name, its size, its modification
/// time, its kind and its path.
pub fn file_item(name: String, size: u64, at: String, path: String) -> (res: DetailItem)
    ensures
        res.id is None,
        res.title == name,
        ov(res.subtitle) == Some(human_size_spec(size as nat)),
        res.at == Some(at),
        ov(res.kind) == Some(file_kind_spec(name@)),
        res.path == Some(path),
{
    let kind = text::string_from(file_kind(name.as_str()));
    DetailItem {
        id: None,
        title: name,
        subtitle: Some(human_size(size)),
        at: Some(at),
        kind: Some(kind),
        path: Some(path),
    }
}

/// The summary of a run whose products are the files in its output
/// directory.
pub fn files_summary(n: usize) -> (res: Summary)
    ensures
        res.headline@ == text::decimal(n as nat) + " 个文件"@,
        res.count == Some(n as i64),
        res.note is None,
{
    let mut out: Vec<char> = Vec::new();
    text::push_decimal(&mut out, n as u64);
    text::append_str(&mut out, " 个文件");
    Summary { headline: text::string_of(&out), count: Some(n as i64), note: None }
}

// ---------------------------------------------------------------------------
// Pushing a summary to the task's channel
// ---------------------------------------------------------------------------

/// The position of the first robot channel with this id.
pub open spec fn bot_index(bots: Seq<BotChannel>, id: Seq<char>) -> Option<int>
    decreases bots.len(),
{
    if bots.len() == 0 {
        None
    } else if bots[0].id@ == id {
        Some(0)
    } else {
        match bot_index(bots.drop_first(), id) {
            Some(k) => Some(k + 1),
            None => None,
        }
    }
}

proof fn lemma_bot_index(bots: Seq<BotChannel>, id: Seq<char>)
    ensures
        match bot_index(bots, id) {
            Some(k) => 0 <= k < bots.len() && bots[k].id@ == id && forall|j: int|
                0 <= j < k ==> bots[j].id@ != id,
            None => forall|j: int| 0 <= j < bots.len() ==> bots[j].id@ != id,
        },
    decreases bots.len(),
{
    if bots.len() > 0 && bots[0].id@ != id {
        lemma_bot_index(bots.drop_first(), id);
        assert forall|j: int| 0 < j < bots.len() implies bots[j] == bots.drop_first()[j - 1] by {}
    }
}

pub fn find_bot(bots: &Vec<BotChannel>, id: &str) -> (res: Option<usize>)
    ensures
        match res {
            Some(i) => bot_index(bots@, id@) == Some(i as int) && i < bots@.len(),
            None => bot_index(bots@, id@) is None,
        },
{
    proof {
        lemma_bot_index(bots@, id@);
    }
    let mut i: usize = 0;
    while i < bots.len()
        invariant
            i <= bots@.len(),
            forall|j: int| 0 <= j < i ==> bots@[j].id@ != id@,
            match bot_index(bots@, id@) {
                Some(k) => 0 <= k < bots@.len() && bots@[k].id@ == id@ && forall|j: int|
                    0 <= j < k ==> bots@[j].id@ != id@,
                None => forall|j: int| 0 <= j < bots@.len() ==> bots@[j].id@ != id@,
            },
        decreases bots.len() - i,
    {
        if text::str_eq(bots[i].id.as_str(), id) {
            return Some(i);
        }
        i += 1;
    }
    None
}

/// Where a task's summary goes after a successful run.
pub enum PushRoute {
    Nowhere,
    /// The robot channel at this position.
    Bot(usize),
    /// The chosen PoPo device.
    Popo,
}

/// `bot:<id>` names a robot channel; `popo` the PoPo device, provided PoPo
/// is switched on, has a fingerprint and a chosen target.
pub open spec fn push_route_spec(
    push_channel: Option<Seq<char>>,
    bots: Seq<BotChannel>,
    popo: PopoConfig,
) -> PushRoute {
    match push_channel {
        None => PushRoute::Nowhere,
        Some(c) => if text::starts_with(c, "bot:"@) {
            match bot_index(bots, c.skip(4)) {
                Some(k) => PushRoute::Bot(k as usize),
                None => PushRoute::Nowhere,
            }
        } else if c == "popo"@ && popo.enabled && popo.fingerprint@.len() > 0
            && popo.target is Some {
            PushRoute::Popo
        } else {
            PushRoute::Nowhere
        },
    }
}

pub fn push_route(push_channel: &Option<String>, bots: &Vec<BotChannel>, popo: &PopoConfig) -> (res: PushRoute)
    ensures
        res == push_route_spec(ov(*push_channel), bots@, *popo),
{
    match push_channel {
        None => PushRoute::Nowhere,
        Some(c) => {
            let v = text::chars_of(c.as_str());
            if text::starts_with_str(&v, "bot:") {
                proof {
                    reveal_strlit("bot:");
                }
                let mut rest: Vec<char> = Vec::new();
                let mut i: usize = 4;
                while i < v.len()
                    invariant
                        4 <= i <= v@.len(),
                        rest@ == v@.subrange(4, i as int),
                    decreases v.len() - i,
                {
                    rest.push(v[i]);
                    assert(v@.subrange(4, i + 1) =~= v@.subrange(4, i as int).push(v@[i as int]));
                    i += 1;
                }
                assert(rest@ =~= v@.skip(4));
                let id = text::string_of(&rest);
                match find_bot(bots, id.as_str()) {
                    Some(k) => PushRoute::Bot(k),
                    None => PushRoute::Nowhere,
                }
            } else if text::eq_str(&v, "popo") && popo.enabled && text::chars_of(
                popo.fingerprint.as_str(),
            ).len() > 0 && popo.target.is_some() {
                PushRoute::Popo
            } else {
                PushRoute::Nowhere
            }
        },
    }
}

/// The message pushed after a run: `[nickname] headline`, or `已更新` where
/// the run reported no headline.
pub open spec fn push_message_spec(nickname: Seq<char>, headline: Option<Seq<char>>) -> Seq<char> {
    "["@ + nickname + "] "@ + match headline {
        Some(h) => h,
        None => "已更新"@,
    }
}

pub fn push_message(nickname: &str, headline: &Option<String>) -> (res: String)
    ensures
        res@ == push_message_spec(nickname@, ov(*headline)),
{
    let mut out = text::chars_of("[");
    text::append_str(&mut out, nickname);
    text::append_str(&mut out, "] ");
    match headline {
        Some(h) => text::append_str(&mut out, h.as_str()),
        None => text::append_str(&mut out, "已更新"),
    }
    text::string_of(&out)
}

/// The warning left when a push fails; a failed push never fails the run.
pub fn push_failure(
    nickname: &str,
    task_id: &str,
    to_bot: bool,
    error: String,
    id: String,
    at: String,
) -> (n: Notification)
    ensures
        notice(
            n,
            id@,
            "warning"@,
            nickname@ + if to_bot {
                " 推送机器人失败"@
            } else {
                " 推送 PoPo 失败"@
            },
            Some(error@),
            at@,
            Some(task_id@),
        ),
{
    let title = if to_bot {
        text::concat(nickname, " 推送机器人失败")
    } else {
        text::concat(nickname, " 推送 PoPo 失败")
    };
    make_notice(id, "warning", title, Some(error), at, Some(text::string_from(task_id)))
}

// ---------------------------------------------------------------------------
// Running processes as the desktop shell lists them
// ---------------------------------------------------------------------------

/// A live run as the dashboard lists it.
#[derive(Debug, Clone)]
pub struct RunningInfo {
    pub exec_id: String,
    pub task_id: String,
    pub nickname: String,
    pub pid: u32,
    pub started_at: String,
    pub lifecycle: Lifecycle,
    pub command: String,
    pub uptime_secs: i64,
}

/// The listing of a live run started at `started_at` (RFC 3339), running
/// for `uptime_secs` whole seconds.
pub fn running_info(
    exec_id: &str,
    task: &Task,
    pid: u32,
    started_at: &str,
    uptime_secs: i64,
) -> (res: RunningInfo)
    ensures
        res.exec_id@ == exec_id@,
        res.task_id@ == task.id@,
        res.nickname@ == task.nickname@,
        res.pid == pid,
        res.started_at@ == started_at@,
        res.lifecycle == task.lifecycle,
        res.command@ == task.command@ + " "@ + joined(text::views(task.args@)),
        res.uptime_secs == uptime_secs,
{
    RunningInfo {
        exec_id: text::string_from(exec_id),
        task_id: text::copy_string(&task.id),
        nickname: text::copy_string(&task.nickname),
        pid,
        started_at: text::string_from(started_at),
        lifecycle: task.lifecycle,
        command: command_line(task.command.as_str(), &task.args),
        uptime_secs,
    }
}

/// A file found in a task's output directory.
#[derive(Debug, Clone)]
pub struct FileEntry {
    /// Modification time in nanoseconds since the Unix epoch.
    pub modified: u128,
    pub name: String,
    pub size: u64,
    /// Modification time as RFC 3339 local time.
    pub at: String,
    pub path: String,
}

/// `order` lists every position once, newest file first; files modified
/// at the same time keep their listing order.
pub open spec fn newest_first_order(times: Seq<u128>, order: Seq<usize>) -> bool {
    &&& order.len() == times.len()
    &&& forall|i: int| 0 <= i < order.len() ==> #[trigger] order[i] < times.len()
    &&& forall|i: int, j: int| 0 <= i < j < order.len() ==> #[trigger] order[i] != #[trigger] order[j]
    &&& forall|i: int, j: int|
        0 <= i < j < order.len() ==> times[#[trigger] order[i] as int] > times[#[trigger] order[j] as int]
            || (times[order[i] as int] == times[order[j] as int] && order[i] < order[j])
}

fn newest_first(times: &Vec<u128>) -> (order: Vec<usize>)
    ensures
        newest_first_order(times@, order@),
{
    let ghost ts = times@;
    let mut order: Vec<usize> = Vec::new();
    let mut k: usize = 0;
    while k < times.len()
        invariant
            k <= times@.len(),
            ts == times@,
            order@.len() == k,
            forall|i: int| 0 <= i < order@.len() ==> #[trigger] order@[i] < k,
            forall|i: int, j: int| 0 <= i < j < order@.len() ==> #[trigger] order@[i] != #[trigger] order@[j],
            forall|i: int, j: int|
                0 <= i < j < order@.len() ==> ts[#[trigger] order@[i] as int] > ts[#[trigger] order@[j] as int]
                    || (ts[order@[i] as int] == ts[order@[j] as int] && order@[i] < order@[j]),
        decreases times.len() - k,
    {
        let mut pos: usize = 0;
        while pos < order.len() && times[order[pos]] >= times[k]
            invariant
                pos <= order@.len(),
                k < times@.len(),
                ts == times@,
                forall|i: int| 0 <= i < order@.len() ==> #[trigger] order@[i] < k,
                forall|i: int| 0 <= i < pos ==> ts[#[trigger] order@[i] as int] >= ts[k as int],
            decreases order.len() - pos,
        {
            pos += 1;
        }
        proof {
            if pos < order@.len() {
                assert forall|j: int| pos <= j < order@.len() implies ts[#[trigger] order@[j] as int] < ts[k as int] by {
                    if j > pos {
                        assert(ts[order@[pos as int] as int] > ts[order@[j] as int] || ts[order@[pos as int] as int] == ts[order@[j] as int]);
                    }
                }
            }
        }
        let ghost before = order@;
        order.insert(pos, k);
        proof {
            assert forall|i: int| 0 <= i < order@.len() implies #[trigger] order@[i] < k + 1 by {
                if i < pos {
                    assert(order@[i] == before[i]);
                } else if i > pos {
                    assert(order@[i] == before[i - 1]);
                }
            }
            assert forall|i: int, j: int| 0 <= i < j < order@.len() implies #[trigger] order@[i] != #[trigger] order@[j] by {
                if i < pos && j < pos {
                    assert(order@[i] == before[i] && order@[j] == before[j]);
                } else if i < pos && j == pos {
                    assert(order@[i] == before[i]);
                } else if i < pos && j > pos {
                    assert(order@[i] == before[i] && order@[j] == before[j - 1]);
                } else if i == pos {
                    assert(order@[j] == before[j - 1]);
                } else {
                    assert(order@[i] == before[i - 1] && order@[j] == before[j - 1]);
                }
            }
            assert forall|i: int, j: int|
                0 <= i < j < order@.len() implies ts[#[trigger] order@[i] as int] > ts[#[trigger] order@[j] as int]
                || (ts[order@[i] as int] == ts[order@[j] as int] && order@[i] < order@[j]) by {
                if i < pos && j < pos {
                    assert(order@[i] == before[i] && order@[j] == before[j]);
                } else if i < pos && j == pos {
                    assert(order@[i] == before[i]);
                } else if i < pos && j > pos {
                    assert(order@[i] == before[i] && order@[j] == before[j - 1]);
                } else if i == pos {
                    assert(order@[j] == before[j - 1]);
                } else {
                    assert(order@[i] == before[i - 1] && order@[j] == before[j - 1]);
                }
            }
        }
        k += 1;
    }
    order
}

pub open spec fn mod_times(files: Seq<FileEntry>) -> Seq<u128> {
    files.map_values(|f: FileEntry| f.modified)
}

/// A file as a timeline item.
pub open spec fn file_item_of(f: FileEntry, d: DetailItem) -> bool {
    &&& d.id is None
    &&& d.title@ == f.name@
    &&& ov(d.subtitle) == Some(human_size_spec(f.size as nat))
    &&& ov(d.at) == Some(f.at@)
    &&& ov(d.kind) == Some(file_kind_spec(f.name@))
    &&& ov(d.path) == Some(f.path@)
}

/// The products of a task with an output directory: its 60 newest files
/// (newest first, ties in listing order) as timeline items.
pub fn file_items(files: Vec<FileEntry>) -> (res: Vec<DetailItem>)
    ensures
        exists|order: Seq<usize>|
            #[trigger] newest_first_order(mod_times(files@), order) && res@.len()
                == first_n(order, 60).len() && forall|i: int|
                0 <= i < res@.len() ==> file_item_of(files@[order[i] as int], #[trigger] res@[i]),
{
    let ghost orig = files@;
    let mut times: Vec<u128> = Vec::new();
    let mut i: usize = 0;
    while i < files.len()
        invariant
            i <= files@.len(),
            files@ == orig,
            times@.len() == i,
            forall|k: int| 0 <= k < i ==> #[trigger] times@[k] == orig[k].modified,
        decreases files.len() - i,
    {
        times.push(files[i].modified);
        i += 1;
    }
    assert(times@ =~= mod_times(orig));
    let order = newest_first(&times);
    let sorted = crate::order::permute(files, &order);
    let mut out: Vec<DetailItem> = Vec::new();
    let mut j: usize = 0;
    while j < sorted.len() && j < 60
        invariant
            j <= sorted@.len(),
            j <= 60,
            sorted@.len() == orig.len(),
            forall|m: int| 0 <= m < sorted@.len() ==> #[trigger] sorted@[m] == orig[order@[m] as int],
            out@.len() == j,
            forall|m: int| 0 <= m < j ==> file_item_of(orig[order@[m] as int], #[trigger] out@[m]),
        decreases sorted.len() - j,
    {
        let f = &sorted[j];
        let d = DetailItem {
            id: None,
            title: text::copy_string(&f.name),
            subtitle: Some(human_size(f.size)),
            at: Some(text::copy_string(&f.at)),
            kind: Some(text::string_from(file_kind(f.name.as_str()))),
            path: Some(text::copy_string(&f.path)),
        };
        out.push(d);
        j += 1;
    }
    assert(out@.len() == first_n(order@, 60).len());
    out
}

} // verus!

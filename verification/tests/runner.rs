use mosaic::model::{DetailItem, ExecStatus, Json, Summary, TaskOutput, TaskResultState};
use mosaic::runner::{
    apply_result, command_line, end_notification, file_kind, human_size, parse_output, poll_step,
    stdin_feed, ParsedOutput, Poll, PollAction,
};

fn to_json(v: &serde_json::Value) -> Json {
    match v {
        serde_json::Value::Null => Json::Null,
        serde_json::Value::Bool(b) => Json::Bool(*b),
        serde_json::Value::Number(n) => Json::Number(n.to_string()),
        serde_json::Value::String(s) => Json::Str(s.clone()),
        serde_json::Value::Array(a) => Json::Array(a.iter().map(to_json).collect()),
        serde_json::Value::Object(m) => Json::Object(m.iter().map(|(k, v)| (k.clone(), to_json(v))).collect()),
    }
}

fn opt_str(v: Option<&serde_json::Value>) -> Result<Option<String>, ()> {
    match v {
        None | Some(serde_json::Value::Null) => Ok(None),
        Some(serde_json::Value::String(s)) => Ok(Some(s.clone())),
        Some(_) => Err(()),
    }
}

fn item(v: &serde_json::Value) -> Result<DetailItem, ()> {
    let o = v.as_object().ok_or(())?;
    Ok(DetailItem {
        id: opt_str(o.get("id"))?,
        title: opt_str(o.get("title"))?.unwrap_or_default(),
        subtitle: opt_str(o.get("subtitle"))?,
        at: opt_str(o.get("at"))?,
        kind: opt_str(o.get("kind"))?,
        path: opt_str(o.get("path"))?,
    })
}

fn task_output(v: &serde_json::Value) -> Option<TaskOutput> {
    let o = v.as_object()?;
    let summary = match o.get("summary") {
        None | Some(serde_json::Value::Null) => None,
        Some(s) => {
            let s = s.as_object()?;
            Some(Summary {
                headline: s.get("headline")?.as_str()?.to_string(),
                count: match s.get("count") {
                    None | Some(serde_json::Value::Null) => None,
                    Some(c) => Some(c.as_i64()?),
                },
                note: opt_str(s.get("note")).ok()?,
            })
        }
    };
    let items = match o.get("items") {
        None => vec![],
        Some(a) => a.as_array()?.iter().map(item).collect::<Result<Vec<_>, ()>>().ok()?,
    };
    Some(TaskOutput {
        summary,
        card: match o.get("card") {
            None | Some(serde_json::Value::Null) => None,
            Some(c) => Some(to_json(c)),
        },
        items,
        cursor: opt_str(o.get("cursor")).ok()?,
    })
}

fn parse(stdout: &str) -> ParsedOutput {
    let trimmed = stdout.trim();
    let value: Option<serde_json::Value> = serde_json::from_str(trimmed).ok();
    let structured = value.as_ref().and_then(task_output);
    parse_output(stdout, structured, value.as_ref().map(to_json))
}

fn member<'a>(v: &'a Json, key: &str) -> Option<&'a Json> {
    match v {
        Json::Object(es) => es.iter().find(|(k, _)| k == key).map(|(_, v)| v),
        _ => None,
    }
}

fn card_type(card: &Option<Json>) -> Option<String> {
    match member(card.as_ref()?, "type") {
        Some(Json::Str(s)) => Some(s.clone()),
        _ => None,
    }
}

#[test]
fn parses_structured_output() {
    let s = r#"{"summary":{"headline":"hi","count":2},"card":{"type":"metric"},"items":[{"title":"a"},{"title":"b"}]}"#;
    let out = parse(s);
    assert_eq!(out.summary.unwrap().count, Some(2));
    assert!(out.card.is_some());
    assert_eq!(out.items.len(), 2);
}

#[test]
fn wraps_bare_card() {
    let s = r#"{"type":"list","items":[{"text":"x"},{"text":"y"}]}"#;
    let out = parse(s);
    assert!(out.summary.is_none());
    assert_eq!(card_type(&out.card).as_deref(), Some("list"));
    assert_eq!(out.items.len(), 2);
}

#[test]
fn wraps_json_array() {
    let out = parse(r#"["one","two","three"]"#);
    assert_eq!(card_type(&out.card).as_deref(), Some("list"));
    assert_eq!(out.items.len(), 3);
    assert_eq!(out.items[0].title, "one");
}

#[test]
fn falls_back_to_lines() {
    let out = parse("alpha\n\nbeta\n");
    assert_eq!(card_type(&out.card).as_deref(), Some("list"));
    assert_eq!(out.items.len(), 2);
    assert_eq!(out.items[1].title, "beta");
}

#[test]
fn empty_is_empty() {
    let out = parse("   \n  ");
    assert!(out.summary.is_none() && out.card.is_none() && out.items.is_empty());
}

#[test]
fn array_elements_keep_their_json_text() {
    let out = parse(r#"[1, {"a":true}, "x"]"#);
    let titles: Vec<&str> = out.items.iter().map(|i| i.title.as_str()).collect();
    assert_eq!(titles, vec!["1", r#"{"a":true}"#, "x"]);
}

#[test]
fn card_items_take_title_or_text() {
    // `at` is not a string, so this is no structured output: it is a bare card.
    let out = parse(r#"{"type":"news","items":[{"title":"T","source":"S","at":1},{"text":"X","subtitle":"Y"}]}"#);
    assert_eq!(card_type(&out.card).as_deref(), Some("news"));
    assert_eq!(out.items.len(), 2);
    assert_eq!(out.items[0].title, "T");
    assert_eq!(out.items[0].subtitle.as_deref(), Some("S"));
    assert_eq!(out.items[1].title, "X");
    assert_eq!(out.items[1].subtitle.as_deref(), Some("Y"));
}

#[test]
fn bare_news_card_is_kept_with_its_items() {
    let s = r#"{"type":"news","title":"Updates","items":[{"title":"Example","source":"Local script"}]}"#;
    let out = parse(s);
    assert!(out.summary.is_none());
    assert_eq!(card_type(&out.card).as_deref(), Some("news"));
    assert_eq!(member(out.card.as_ref().unwrap(), "title").map(|t| matches!(t, Json::Str(x) if x == "Updates")), Some(true));
    assert_eq!(out.items.len(), 1);
    assert_eq!(out.items[0].title, "Example");
    assert_eq!(out.items[0].subtitle.as_deref(), Some("Local script"));
}

#[test]
fn a_typed_object_with_a_summary_is_a_structured_output() {
    let out = parse(r#"{"type":"news","summary":{"headline":"h"},"items":[{"title":"T"}]}"#);
    assert_eq!(out.summary.unwrap().headline, "h");
    assert_eq!(card_type(&out.card).as_deref(), Some("list"));
    assert_eq!(out.items[0].title, "T");
}

#[test]
fn at_most_100_lines() {
    let text: String = (0..150).map(|i| format!("line {i}\n")).collect();
    let out = parse(&text);
    assert_eq!(out.items.len(), 100);
    assert_eq!(out.items[99].title, "line 99");
}

fn titled(t: &str) -> DetailItem {
    DetailItem { id: None, title: t.into(), subtitle: None, at: None, kind: None, path: None }
}

#[test]
fn results_merge_and_keep_the_newest_200() {
    let mut results: Vec<(String, TaskResultState)> = Vec::new();
    let first = ParsedOutput { summary: None, card: None, items: (0..150).map(|i| titled(&format!("old {i}"))).collect() };
    assert_eq!(apply_result(&mut results, "t", first, Some("c1".into()), "T1".into()), 150);
    let second = ParsedOutput {
        summary: Some(Summary { headline: "h".into(), count: None, note: None }),
        card: None,
        items: (0..100).map(|i| titled(&format!("new {i}"))).collect(),
    };
    assert_eq!(apply_result(&mut results, "t", second, None, "T2".into()), 100);
    assert_eq!(results.len(), 1);
    let st = &results[0].1;
    assert_eq!(st.timeline.len(), 200);
    assert_eq!(st.timeline[0].title, "new 0");
    assert_eq!(st.timeline[100].title, "old 0");
    assert_eq!(st.cursor.as_deref(), Some("c1"));
    assert_eq!(st.updated_at.as_deref(), Some("T2"));
    assert_eq!(st.summary.as_ref().unwrap().headline, "h");
}

#[test]
fn the_run_loop_decides() {
    assert!(matches!(poll_step(60, Poll::KillRequested), PollAction::Stop(ExecStatus::Killed)));
    assert!(matches!(poll_step(60, Poll::Exited { success: true, code: Some(0) }), PollAction::Finish(ExecStatus::Success, Some(0))));
    assert!(matches!(poll_step(60, Poll::Exited { success: false, code: Some(3) }), PollAction::Finish(ExecStatus::Failed, Some(3))));
    assert!(matches!(poll_step(60, Poll::Running { elapsed_secs: 59 }), PollAction::Wait));
    assert!(matches!(poll_step(60, Poll::Running { elapsed_secs: 60 }), PollAction::Stop(ExecStatus::TimedOut)));
    assert!(matches!(poll_step(0, Poll::Running { elapsed_secs: 100000 }), PollAction::Wait));
    assert!(matches!(poll_step(0, Poll::WaitFailed), PollAction::Finish(ExecStatus::Failed, None)));
}

#[test]
fn canned_answers_end_with_a_newline() {
    assert_eq!(stdin_feed(&Some("y".into())).as_deref(), Some("y\n"));
    assert_eq!(stdin_feed(&Some("y\n".into())).as_deref(), Some("y\n"));
    assert_eq!(stdin_feed(&Some(String::new())), None);
    assert_eq!(stdin_feed(&None), None);
}

#[test]
fn command_lines_are_joined_by_spaces() {
    assert_eq!(command_line("node", &vec!["-e".into(), "x".into()]), "node -e x");
    assert_eq!(command_line("tool", &vec![]), "tool ");
}

#[test]
fn finished_runs_notify() {
    let n = end_notification("Job", "t1", ExecStatus::Failed, false, "  boom \n", "n1".into(), "now".into()).unwrap();
    assert_eq!(n.level, "danger");
    assert_eq!(n.title, "Job 运行失败");
    assert_eq!(n.body.as_deref(), Some("boom"));
    let n = end_notification("Job", "t1", ExecStatus::TimedOut, false, "", "n2".into(), "now".into()).unwrap();
    assert_eq!(n.body.as_deref(), Some("TimedOut"));
    let n = end_notification("Svc", "t2", ExecStatus::Success, true, "", "n3".into(), "now".into()).unwrap();
    assert_eq!(n.level, "warning");
    assert_eq!(n.title, "Svc 已停止");
    assert!(end_notification("Job", "t1", ExecStatus::Success, false, "", "n4".into(), "now".into()).is_none());
    assert!(end_notification("Job", "t1", ExecStatus::Killed, true, "x", "n5".into(), "now".into()).is_none());
}

#[test]
fn file_kinds_by_extension() {
    assert_eq!(file_kind("photo.JPG"), "image");
    assert_eq!(file_kind("clip.webm"), "video");
    assert_eq!(file_kind("song.flac"), "audio");
    assert_eq!(file_kind("report.pdf"), "file");
}

fn float_size(bytes: u64) -> String {
    const U: [&str; 4] = ["B", "KB", "MB", "GB"];
    let mut v = bytes as f64;
    let mut i = 0;
    while v >= 1024.0 && i < U.len() - 1 {
        v /= 1024.0;
        i += 1;
    }
    if i == 0 {
        format!("{} {}", bytes, U[0])
    } else {
        format!("{:.1} {}", v, U[i])
    }
}

#[test]
fn sizes_print_like_floating_point() {
    let mut samples: Vec<u64> = vec![0, 1, 1023, 1024, 1280, 1331, 1536, 1587, 10239, 1048575, 1048576, 5 * 1048576 + 52429, 1073741823, 1073741824, 1610612736, u64::MAX, (1u64 << 53) + 1, (1u64 << 60) + 12345];
    let mut x: u64 = 7;
    for _ in 0..2000 {
        x = x.wrapping_mul(6364136223846793005).wrapping_add(1442695040888963407);
        samples.push(x >> (x % 61));
    }
    for b in samples {
        assert_eq!(human_size(b), float_size(b), "bytes = {b}");
    }
}

use mosaic::watcher;
use mosaic::watcher::{debounce_passes, event_hits};

#[test]
fn star_matches_all() {
    assert!(watcher::matches("*", "anything.txt"));
    assert!(watcher::matches("", "anything.txt"));
}

#[test]
fn ext_match() {
    assert!(watcher::matches("*.pdf", "report.PDF"));
    assert!(!watcher::matches("*.pdf", "report.txt"));
}

#[test]
fn multi_pattern() {
    assert!(watcher::matches("*.png, *.jpg", "photo.jpg"));
    assert!(!watcher::matches("*.png, *.jpg", "doc.pdf"));
}

#[test]
fn exact_name() {
    assert!(watcher::matches("config.json", "config.json"));
    assert!(!watcher::matches("config.json", "other.json"));
}

#[test]
fn events_hit_by_file_name() {
    let paths = vec!["/data/in/photo.JPG".to_string(), "/data/in/notes.txt".to_string()];
    assert!(event_hits("*.jpg", &paths));
    assert!(!event_hits("*.pdf", &paths));
    assert!(!event_hits("*", &Vec::new()));
}

#[test]
fn debounce_waits_800_ms() {
    assert!(!debounce_passes(799));
    assert!(debounce_passes(800));
}

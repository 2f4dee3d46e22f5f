use eldroid_ssg::batch::BuildError;
use eldroid_ssg::watch::{classify, client_message, error_change, ChangeType, Debouncer, DevSession, FileChange, RawKind, ServerState};

fn paths(p: &[&str]) -> Vec<String> {
    p.iter().map(|s| s.to_string()).collect()
}

#[test]
fn debounce_accepts_only_after_the_window() {
    let mut d = Debouncer::new();
    assert!(d.offer(1000));
    assert!(!d.offer(1050));
    assert!(!d.offer(1100));
    assert!(d.offer(1101));
    assert!(!d.offer(1201));
    assert!(d.offer(1202));
}

#[test]
fn two_quick_modifications_publish_once() {
    let mut d = Debouncer::new();
    let first = d.process(500, RawKind::Modify, &paths(&["content/index.html"]));
    let second = d.process(560, RawKind::Modify, &paths(&["content/index.html"]));
    assert_eq!(first.len() + second.len(), 1);
    assert_eq!(first[0].path, "content/index.html");
    assert!(matches!(first[0].event_type, ChangeType::Modify));
}

#[test]
fn css_modification_is_a_css_change() {
    assert!(matches!(classify(RawKind::Modify, &paths(&["content/style/main.css"])), ChangeType::CssChange));
    assert!(matches!(classify(RawKind::Create, &paths(&["a.txt", "b.css"])), ChangeType::CssChange));
    assert!(matches!(classify(RawKind::Modify, &paths(&["index.html"])), ChangeType::Modify));
    assert!(matches!(classify(RawKind::Create, &paths(&["index.html"])), ChangeType::Create));
    assert!(matches!(classify(RawKind::Remove, &paths(&["index.html"])), ChangeType::Delete));
    assert!(matches!(classify(RawKind::Other, &paths(&["index.html"])), ChangeType::Modify));
    assert!(matches!(classify(RawKind::Modify, &paths(&["css", ".css", "a.css/b"])), ChangeType::Modify));
}

#[test]
fn every_path_of_an_accepted_event_is_published() {
    let mut d = Debouncer::new();
    let out = d.process(10, RawKind::Create, &paths(&["a.html", "b.html"]));
    assert_eq!(out.len(), 2);
    assert_eq!(out[1].path, "b.html");
    assert!(matches!(out[1].event_type, ChangeType::Create));
}

#[test]
fn client_messages_by_kind() {
    let css = FileChange { path: "style/a.css".to_string(), event_type: ChangeType::CssChange };
    assert_eq!(client_message(&css), "{\"type\":\"css\",\"path\":\"style/a.css\"}");
    let modify = FileChange { path: "a.html".to_string(), event_type: ChangeType::Modify };
    assert_eq!(client_message(&modify), "reload");
    let err = FileChange { path: "x".to_string(), event_type: ChangeType::Error("bad \"x\"\nline".to_string()) };
    assert_eq!(client_message(&err), "{\"type\":\"error\",\"message\":\"bad \\\"x\\\"\\nline\"}");
    let ctl = FileChange { path: "a\u{8}b\u{1b}.css".to_string(), event_type: ChangeType::CssChange };
    assert_eq!(client_message(&ctl), "{\"type\":\"css\",\"path\":\"a\\u0008b\\u001b.css\"}");
}

#[test]
fn error_reports_name_their_location() {
    let e = error_change("boom", Some("content/a.html"));
    assert_eq!(e.path, "content/a.html");
    match e.event_type {
        ChangeType::Error(m) => assert_eq!(m, "Build Error: boom\n\nLocation: content/a.html"),
        _ => panic!("not an error"),
    }
    let u = error_change("boom", None);
    assert_eq!(u.path, "unknown");
    match u.event_type {
        ChangeType::Error(m) => assert_eq!(m, "Build Error: boom\n\nLocation: Unknown"),
        _ => panic!("not an error"),
    }
}

#[test]
fn session_rebuilds_and_tracks_changed_files() {
    let mut s = DevSession::new();
    assert_eq!(s.state(), ServerState::Idle);
    s.start_watching();
    assert_eq!(s.state(), ServerState::Watching);
    assert_eq!(s.get_changed_files().len(), 0);
    let step = s.handle_event(1000, RawKind::Modify, &paths(&["content/a.html", "content/a.html"]));
    assert!(step.rebuild);
    assert_eq!(s.state(), ServerState::Rebuilding);
    assert!(s.rebuild_finished(&Ok(())).is_none());
    assert_eq!(s.state(), ServerState::Watching);
    assert_eq!(step.changes.len(), 2);
    assert_eq!(s.get_changed_files(), vec!["content/a.html".to_string()]);
    let quiet = s.handle_event(1020, RawKind::Modify, &paths(&["content/b.html"]));
    assert!(!quiet.rebuild);
    assert!(quiet.changes.is_empty());
    assert_eq!(s.get_changed_files().len(), 1);
    s.clear_changed_files();
    assert!(s.get_changed_files().is_empty());
}

#[test]
fn failed_rebuilds_are_published() {
    let mut s = DevSession::new();
    s.start_watching();
    assert!(s.rebuild_finished(&Ok(())).is_none());
    let e = BuildError { file: "content/x.html".to_string(), message: "unreadable".to_string() };
    let c = s.rebuild_finished(&Err(e)).unwrap();
    assert_eq!(s.state(), ServerState::Watching);
    assert_eq!(c.path, "content/x.html");
    assert!(matches!(c.event_type, ChangeType::Error(ref m) if m == "Build Error: unreadable\n\nLocation: content/x.html"));
}

use pty_sessions::error::PtyError;
use pty_sessions::reader::{PtyEvent, ReadOutcome, ReaderLoop, ReaderPhase};
use pty_sessions::registry::Registry;

/// A stand-in for a pty handle: it records what was written and the size.
#[derive(Debug)]
struct FakePty {
    label: String,
    written: Vec<String>,
    rows: u16,
    cols: u16,
}

fn fake(label: &str) -> FakePty {
    FakePty { label: label.to_string(), written: Vec::new(), rows: 24, cols: 80 }
}

fn start(reg: &mut Registry<FakePty>, id: &str, label: &str) -> (u64, ReaderLoop, PtyEvent) {
    reg.close(id).unwrap();
    let generation = reg.install(id.to_string(), Ok(fake(label))).unwrap();
    let (reader, ready) = ReaderLoop::new(id.to_string(), generation);
    (generation, reader, ready)
}

fn data(s: &str) -> ReadOutcome {
    ReadOutcome::Data(s.as_bytes().to_vec())
}

fn outputs(events: &[PtyEvent]) -> Vec<String> {
    events
        .iter()
        .filter_map(|e| match e {
            PtyEvent::Output(o) => Some(o.data.clone()),
            _ => None,
        })
        .collect()
}

fn drive(reader: &mut ReaderLoop, reads: Vec<ReadOutcome>) -> Vec<PtyEvent> {
    let mut events = Vec::new();
    for r in reads {
        if let Some(e) = reader.on_read(r) {
            events.push(e);
        }
    }
    events
}

#[test]
fn start_write_and_see_output() {
    let mut reg = Registry::new();
    let (_, mut reader, ready) = start(&mut reg, "t1", "first");
    assert!(matches!(&ready, PtyEvent::Ready(id) if id == "t1"));
    reg.handle_mut("t1").unwrap().written.push("echo hi\n".to_string());
    let events = drive(&mut reader, vec![data("echo hi\r\n"), data("hi\r\n")]);
    assert!(outputs(&events).iter().any(|o| o.contains("hi")));
    for e in &events {
        assert!(matches!(e, PtyEvent::Output(o) if o.id == "t1"));
    }
}

#[test]
fn restart_replaces_the_first_session() {
    let mut reg = Registry::new();
    let (g1, _r1, _) = start(&mut reg, "t1", "first");
    reg.handle_mut("t1").unwrap().written.push("ls\n".to_string());
    let (g2, _r2, ready) = start(&mut reg, "t1", "second");
    assert!(g2 > g1);
    assert!(matches!(ready, PtyEvent::Ready(id) if id == "t1"));
    let h = reg.handle_mut("t1").unwrap();
    assert_eq!(h.label, "second");
    assert!(h.written.is_empty());
}

#[test]
fn install_over_a_live_id_keeps_one_handle() {
    let mut reg = Registry::new();
    reg.install("t1".to_string(), Ok(fake("first"))).unwrap();
    reg.install("t1".to_string(), Ok(fake("second"))).unwrap();
    assert_eq!(reg.handle_mut("t1").unwrap().label, "second");
    reg.close("t1").unwrap();
    assert!(!reg.is_live("t1"));
}

#[test]
fn close_is_idempotent() {
    let mut reg = Registry::new();
    start(&mut reg, "t1", "first");
    assert!(reg.close("t1").is_ok());
    assert!(!reg.is_live("t1"));
    assert!(reg.close("t1").is_ok());
    assert!(!reg.is_live("t1"));
}

#[test]
fn close_never_started_is_ok_without_events() {
    let mut reg: Registry<FakePty> = Registry::new();
    assert!(reg.close("never-started").is_ok());
    assert!(!reg.is_live("never-started"));
}

#[test]
fn close_then_natural_exit() {
    let mut reg = Registry::new();
    let (_, mut reader, _) = start(&mut reg, "t1", "first");
    reg.close("t1").unwrap();
    let events = drive(&mut reader, vec![ReadOutcome::Eof]);
    assert_eq!(events.len(), 1);
    assert!(matches!(&events[0], PtyEvent::Exit(id) if id == "t1"));
    assert!(!reader.finish(&mut reg));
    assert!(!reg.is_live("t1"));
}

#[test]
fn natural_exit_then_close() {
    let mut reg = Registry::new();
    let (_, mut reader, _) = start(&mut reg, "t1", "first");
    let events = drive(&mut reader, vec![data("bye"), ReadOutcome::Eof]);
    assert!(matches!(events.last(), Some(PtyEvent::Exit(id)) if id == "t1"));
    assert!(reader.finish(&mut reg));
    assert!(!reg.is_live("t1"));
    assert!(reg.close("t1").is_ok());
    assert!(!reg.is_live("t1"));
}

#[test]
fn stale_reader_leaves_the_new_session() {
    let mut reg = Registry::new();
    let (_, mut old_reader, _) = start(&mut reg, "t1", "first");
    let (_, _new_reader, _) = start(&mut reg, "t1", "second");
    drive(&mut old_reader, vec![ReadOutcome::Eof]);
    assert!(!old_reader.finish(&mut reg));
    assert!(reg.is_live("t1"));
    assert_eq!(reg.handle_mut("t1").unwrap().label, "second");
}

#[test]
fn resize_live_session_emits_nothing() {
    let mut reg = Registry::new();
    let (_, mut reader, _) = start(&mut reg, "t1", "first");
    let h = reg.handle_mut("t1").unwrap();
    h.rows = 40;
    h.cols = 120;
    let h = reg.handle_mut("t1").unwrap();
    assert_eq!((h.rows, h.cols), (40, 120));
    assert!(reader.is_running());
    let events = drive(&mut reader, vec![]);
    assert!(events.is_empty());
}

#[test]
fn write_to_unknown_session_is_not_found() {
    let mut reg: Registry<FakePty> = Registry::new();
    match reg.handle_mut("t9") {
        Err(e) => {
            assert!(matches!(e, PtyError::NotFound(_)));
            assert_eq!(e.message(), "No PTY session found for terminal t9");
        }
        Ok(_) => panic!("expected NotFound"),
    }
}

#[test]
fn spawn_failure_installs_nothing() {
    let mut reg: Registry<FakePty> = Registry::new();
    let r = reg.install("t1".to_string(), Err("Failed to open PTY: busy".to_string()));
    match r {
        Err(PtyError::Spawn(m)) => assert_eq!(m, "Failed to open PTY: busy"),
        other => panic!("unexpected {:?}", other),
    }
    assert!(!reg.is_live("t1"));
}

#[test]
fn sessions_are_independent() {
    let mut reg = Registry::new();
    start(&mut reg, "a", "first");
    start(&mut reg, "b", "second");
    reg.close("a").unwrap();
    assert!(!reg.is_live("a"));
    assert!(reg.is_live("b"));
    assert_eq!(reg.handle_mut("b").unwrap().label, "second");
}

#[test]
fn writes_reach_the_handle_in_order() {
    let mut reg = Registry::new();
    start(&mut reg, "t1", "first");
    reg.handle_mut("t1").unwrap().written.push("a".to_string());
    reg.handle_mut("t1").unwrap().written.push("b".to_string());
    assert_eq!(reg.handle_mut("t1").unwrap().written, vec!["a", "b"]);
}

#[test]
fn output_order_is_kept_and_exit_is_last() {
    let mut reg = Registry::new();
    let (_, mut reader, ready) = start(&mut reg, "t1", "first");
    let mut events = vec![ready];
    events.extend(drive(
        &mut reader,
        vec![data("C1"), data("C2"), data("C3"), ReadOutcome::Eof, data("late")],
    ));
    assert!(matches!(&events[0], PtyEvent::Ready(_)));
    assert_eq!(outputs(&events), vec!["C1", "C2", "C3"]);
    assert!(matches!(events.last(), Some(PtyEvent::Exit(_))));
    assert_eq!(events.iter().filter(|e| matches!(e, PtyEvent::Exit(_))).count(), 1);
    assert_eq!(events.iter().filter(|e| matches!(e, PtyEvent::Ready(_))).count(), 1);
}

#[test]
fn repeated_chunk_is_forwarded_once() {
    let mut reg = Registry::new();
    let (_, mut reader, _) = start(&mut reg, "t1", "first");
    let events = drive(&mut reader, vec![data("x"), data("x"), data("y"), data("x")]);
    assert_eq!(outputs(&events), vec!["x", "y", "x"]);
}

#[test]
fn immediate_exit_gives_one_exit() {
    let mut reg = Registry::new();
    let (_, mut reader, _) = start(&mut reg, "t1", "first");
    let events = drive(&mut reader, vec![ReadOutcome::Data(Vec::new()), data("after")]);
    assert_eq!(events.len(), 1);
    assert!(matches!(&events[0], PtyEvent::Exit(id) if id == "t1"));
    assert!(!reader.is_running());
    assert!(reader.finish(&mut reg));
    assert!(!reg.is_live("t1"));
    assert!(!reader.finish(&mut reg));
}

#[test]
fn read_error_stops_the_loop() {
    let mut reg = Registry::new();
    let (_, mut reader, _) = start(&mut reg, "t1", "first");
    let events = drive(&mut reader, vec![data("ok"), ReadOutcome::Failed("EIO".to_string())]);
    assert_eq!(outputs(&events), vec!["ok"]);
    assert!(matches!(events.last(), Some(PtyEvent::Exit(_))));
}

#[test]
fn invalid_bytes_become_replacement_characters() {
    let mut reg = Registry::new();
    let (_, mut reader, _) = start(&mut reg, "t1", "first");
    let events = drive(&mut reader, vec![ReadOutcome::Data(vec![b'o', 0xff, b'k'])]);
    assert_eq!(outputs(&events), vec!["o\u{FFFD}k"]);
}

#[test]
fn text_step_skips_repeats() {
    let (mut reader, _) = ReaderLoop::new("s".to_string(), 3);
    assert_eq!(reader.generation(), 3);
    assert_eq!(reader.id(), "s");
    assert!(reader.on_text("a".to_string()).is_some());
    assert!(reader.on_text("a".to_string()).is_none());
    assert!(reader.on_text("b".to_string()).is_some());
    let _ = ReaderPhase::Running;
}

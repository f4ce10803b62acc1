use usi_engine_host::engine_manager::{
    command_line, line_signals_ready, watchdog_decision, EngineInstance, EngineStatus,
    SessionError, SessionRegistry, WatchdogAction,
};
use usi_engine_host::handshake::{
    setoption_command, Handshake, HandshakeAction, HandshakeError, HandshakeEvent, HandshakePhase,
    HandshakeStage,
};
use usi_engine_host::option_map::OptionMap;

#[test]
fn exact_id_wins_over_prefix() {
    let mut r: SessionRegistry<u32> = SessionRegistry::new();
    r.insert("engine-1-run".to_string(), 1);
    r.insert("engine-1".to_string(), 2);
    assert_eq!(r.get("engine-1"), Some(&2));
    assert_eq!(r.get("engine-1-r"), Some(&1));
    assert_eq!(r.resolve("engine-1"), Ok(1));
    assert_eq!(r.resolve_id("engine-1-"), Some("engine-1-run".to_string()));
}

#[test]
fn ambiguous_prefix_takes_earliest_registration() {
    let mut r: SessionRegistry<u32> = SessionRegistry::new();
    r.insert("cfg-b".to_string(), 1);
    r.insert("cfg-a".to_string(), 2);
    assert_eq!(r.get("cfg"), Some(&1));
}

#[test]
fn empty_registry_resolves_nothing() {
    let r: SessionRegistry<u32> = SessionRegistry::new();
    assert_eq!(r.resolve(""), Err(SessionError::NotFound));
    assert_eq!(r.resolve("x"), Err(SessionError::NotFound));
    assert!(r.get("x").is_none());
    let mut r2: SessionRegistry<u32> = SessionRegistry::new();
    r2.insert("a".to_string(), 1);
    assert_eq!(r2.resolve("b"), Err(SessionError::NotFound));
}

#[test]
fn reinsert_replaces_session() {
    let mut r: SessionRegistry<u32> = SessionRegistry::new();
    assert_eq!(r.insert("a".to_string(), 1), None);
    assert_eq!(r.insert("a".to_string(), 7), Some(1));
    assert_eq!(r.len(), 1);
    assert_eq!(r.get("a"), Some(&7));
}

#[test]
fn remove_uses_resolved_id() {
    let mut r: SessionRegistry<u32> = SessionRegistry::new();
    r.insert("long-id-1".to_string(), 1);
    r.insert("other".to_string(), 2);
    assert_eq!(r.remove("long"), Ok(("long-id-1".to_string(), 1)));
    assert_eq!(r.remove("long"), Err(SessionError::NotFound));
    assert_eq!(r.list_engines(), vec!["other".to_string()]);
}

#[test]
fn stopping_all_empties_the_registry() {
    let mut r: SessionRegistry<u32> = SessionRegistry::new();
    for i in 0..5u32 {
        r.insert(format!("e{}", i), i);
    }
    let all = r.stop_all_engines();
    assert_eq!(all.len(), 5);
    assert_eq!(all[3], ("e3".to_string(), 3));
    assert_eq!(r.len(), 0);
    assert!(r.list_engines().is_empty());
    assert!(r.stop_all_engines().is_empty());
}

#[test]
fn session_lifecycle_and_double_stop() {
    let mut s: EngineInstance<&str> = EngineInstance::new("id".into(), "n".into(), "/p".into());
    assert_eq!(s.status(), EngineStatus::Stopped);
    assert_eq!(s.send_command("usi"), Err(SessionError::StdinUnavailable));
    assert_eq!(s.attach("pipes"), None);
    assert_eq!(s.status(), EngineStatus::Starting);
    assert_eq!(s.send_command("usi"), Ok("usi\n".to_string()));
    s.observe_output("id name X");
    assert_eq!(s.status(), EngineStatus::Starting);
    s.observe_output("usiok");
    assert_eq!(s.status(), EngineStatus::Ready);
    s.await_reply();
    assert_eq!(s.status(), EngineStatus::Starting);
    s.observe_output("bestmove 7g7f");
    assert_eq!(s.status(), EngineStatus::Ready);
    assert_eq!(s.stop(), Some("pipes"));
    assert_eq!(s.status(), EngineStatus::Stopped);
    assert_eq!(s.stop(), None);
    assert_eq!(s.status(), EngineStatus::Stopped);
    assert!(!s.is_live());
    s.observe_output("readyok");
    assert_eq!(s.status(), EngineStatus::Stopped);
    s.mark_dead();
    assert_eq!(s.status(), EngineStatus::Stopped);
}

#[test]
fn dead_process_marks_error() {
    let mut s: EngineInstance<u8> = EngineInstance::new("id".into(), "n".into(), "/p".into());
    s.attach(1);
    s.mark_dead();
    assert_eq!(s.status(), EngineStatus::Error);
    if let Some(h) = s.handles_mut() {
        *h = 2;
    }
    assert_eq!(s.stop(), Some(2));
}

#[test]
fn ready_tokens_follow_the_reader_rules() {
    assert!(line_signals_ready("usiok"));
    assert!(line_signals_ready("  readyok"));
    assert!(line_signals_ready("xx usiok yy"));
    assert!(line_signals_ready("bestmove 7g7f"));
    assert!(!line_signals_ready(" bestmove 7g7f"));
    assert!(!line_signals_ready("info string usi ok"));
    assert!(!line_signals_ready(""));
    assert_eq!(command_line("quit"), "quit\n");
}

#[test]
fn watchdog_decisions() {
    assert_eq!(watchdog_decision(false, true, true), WatchdogAction::Exit);
    assert_eq!(watchdog_decision(true, false, false), WatchdogAction::Exit);
    assert_eq!(watchdog_decision(true, true, true), WatchdogAction::Continue);
    assert_eq!(watchdog_decision(true, true, false), WatchdogAction::ReportDeath);
}

fn sent(a: &HandshakeAction) -> (String, bool) {
    match a {
        HandshakeAction::Send { line, await_reply } => (line.clone(), *await_reply),
        other => panic!("expected a send, got {:?}", other),
    }
}

#[test]
fn handshake_runs_the_full_sequence() {
    let mut m = OptionMap::new();
    m.insert("USI_Hash".to_string(), "256".to_string());
    m.insert("Threads".to_string(), "2".to_string());
    let mut h = Handshake::new(Some(&m), 10000);
    assert_eq!(sent(&h.step(HandshakeEvent::Start)), ("usi".to_string(), true));
    assert!(matches!(h.step(HandshakeEvent::Sent(true)), HandshakeAction::Poll));
    assert!(matches!(
        h.step(HandshakeEvent::Polled { ready: false, elapsed_ms: 50 }),
        HandshakeAction::Poll
    ));
    let a = h.step(HandshakeEvent::Polled { ready: true, elapsed_ms: 100 });
    assert_eq!(sent(&a), ("setoption name USI_Hash value 256".to_string(), false));
    let a = h.step(HandshakeEvent::Sent(false));
    assert_eq!(sent(&a), ("setoption name Threads value 2".to_string(), false));
    let a = h.step(HandshakeEvent::Sent(true));
    assert_eq!(sent(&a), ("isready".to_string(), true));
    assert!(matches!(h.step(HandshakeEvent::Sent(true)), HandshakeAction::Poll));
    assert!(matches!(
        h.step(HandshakeEvent::Polled { ready: true, elapsed_ms: 0 }),
        HandshakeAction::Complete
    ));
    assert_eq!(h.phase, HandshakePhase::Done);
}

#[test]
fn handshake_times_out_without_usiok() {
    let mut h = Handshake::new(None, 10000);
    h.step(HandshakeEvent::Start);
    h.step(HandshakeEvent::Sent(true));
    assert!(matches!(
        h.step(HandshakeEvent::Polled { ready: false, elapsed_ms: 10000 }),
        HandshakeAction::Poll
    ));
    assert!(matches!(
        h.step(HandshakeEvent::Polled { ready: false, elapsed_ms: 10001 }),
        HandshakeAction::Abort(HandshakeError::Timeout(HandshakeStage::UsiOk))
    ));
    assert!(matches!(h.step(HandshakeEvent::Sent(true)), HandshakeAction::Abort(_)));
}

#[test]
fn handshake_times_out_without_readyok() {
    let mut h = Handshake::new(None, 5000);
    h.step(HandshakeEvent::Start);
    h.step(HandshakeEvent::Sent(true));
    let a = h.step(HandshakeEvent::Polled { ready: true, elapsed_ms: 1 });
    assert_eq!(sent(&a), ("isready".to_string(), true));
    h.step(HandshakeEvent::Sent(true));
    assert!(matches!(
        h.step(HandshakeEvent::Polled { ready: false, elapsed_ms: 6000 }),
        HandshakeAction::Abort(HandshakeError::Timeout(HandshakeStage::ReadyOk))
    ));
}

#[test]
fn handshake_failures() {
    let mut h = Handshake::new(None, 5000);
    h.step(HandshakeEvent::Start);
    assert!(matches!(
        h.step(HandshakeEvent::Sent(false)),
        HandshakeAction::Abort(HandshakeError::SendFailed)
    ));
    let mut h = Handshake::new(None, 5000);
    h.step(HandshakeEvent::Start);
    h.step(HandshakeEvent::Sent(true));
    assert!(matches!(
        h.step(HandshakeEvent::Lost),
        HandshakeAction::Abort(HandshakeError::EngineLost)
    ));
    let mut h = Handshake::new(None, 5000);
    assert!(matches!(
        h.step(HandshakeEvent::Sent(true)),
        HandshakeAction::Abort(HandshakeError::OutOfOrder)
    ));
}

#[test]
fn handshake_recognizes_reply_lines() {
    let mut h = Handshake::new(None, 5000);
    assert!(!h.answers("usiok"));
    h.step(HandshakeEvent::Start);
    h.step(HandshakeEvent::Sent(true));
    assert!(h.answers("usiok\n"));
    assert!(h.answers("  usiok  "));
    assert!(!h.answers("readyok"));
    assert!(!h.answers("usiokx"));
    assert_eq!(setoption_command("A B", "1"), "setoption name A B value 1");
}

use oracle_omen::event::{Event, EventId, EventKind, EventLog, EventPayload, ObservationPayload};
use oracle_omen::kv::StrMap;
use oracle_omen::replay::{ReplayEngine, Snapshot, SnapshotManager};
use oracle_omen::state::AgentState;
use oracle_omen::timebase::LogicalTime;

fn obs(i: u64) -> Event {
    Event::new(EventId::new(1, i), EventKind::Observation, LogicalTime::new(1, i),
        EventPayload::Observation(ObservationPayload {
            obs_type: format!("t{}", i),
            data: StrMap::new(),
            source: "s".to_string(),
        }))
}

#[test]
fn test_replay_engine_creation() {
    let log = EventLog::new(1);
    let engine = ReplayEngine::new(log);
    assert_eq!(engine.position(), 0);
    assert!(engine.is_complete());
}

#[test]
fn test_snapshot_verification() {
    let state = AgentState::with_run_id(42);
    let snapshot = Snapshot::new("test", 42, 0, state);
    assert!(snapshot.verify());
}

#[test]
fn test_snapshot_manager() {
    let mut manager = SnapshotManager::new();
    manager.add(Snapshot::new("s1", 1, 10, AgentState::with_run_id(1)));
    manager.add(Snapshot::new("s2", 1, 20, AgentState::with_run_id(1)));
    assert_eq!(manager.get_snapshot_before(15).map(|s| s.position), Some(10));
    assert_eq!(manager.get_snapshot_before(25).map(|s| s.position), Some(20));
}

#[test]
fn replay_is_deterministic() {
    // The same log replays to the same final state hash, run after run.
    let mut log1 = EventLog::new(1);
    let mut log2 = EventLog::new(1);
    for i in 0..3 {
        log1.append(obs(i)).unwrap();
        log2.append(obs(i)).unwrap();
    }
    let mut e1 = ReplayEngine::new(log1);
    let mut e2 = ReplayEngine::new(log2);
    let h1 = e1.replay_all().unwrap();
    let h2 = e2.replay_all().unwrap();
    assert_eq!(h1, h2);
    assert!(e1.is_complete());
}

#[test]
fn identical_logs_do_not_diverge() {
    let mut log1 = EventLog::new(1);
    let mut log2 = EventLog::new(1);
    for i in 0..3 {
        log1.append(obs(i)).unwrap();
        log2.append(obs(i)).unwrap();
    }
    let e1 = ReplayEngine::new(log1);
    let e2 = ReplayEngine::new(log2);
    assert_eq!(e1.detect_divergence(&e2).len(), 0);
}

#[test]
fn differing_event_yields_one_point_at_its_position() {
    let mut log1 = EventLog::new(1);
    let mut log2 = EventLog::new(1);
    log1.append(obs(0)).unwrap();
    log2.append(obs(0)).unwrap();
    log1.append(obs(1)).unwrap();
    log2.append(Event::new(EventId::new(1, 1), EventKind::Observation,
        LogicalTime::new(1, 1),
        EventPayload::Observation(ObservationPayload {
            obs_type: "other".to_string(),
            data: StrMap::new(),
            source: "s".to_string(),
        }))).unwrap();
    log1.append(obs(2)).unwrap();
    log2.append(obs(2)).unwrap();
    let e1 = ReplayEngine::new(log1);
    let e2 = ReplayEngine::new(log2);
    let points = e1.detect_divergence(&e2);
    assert_eq!(points.len(), 1);
    assert_eq!(points[0].position, 1);
}

#[test]
fn shorter_log_reports_length_mismatch() {
    let mut log1 = EventLog::new(1);
    let mut log2 = EventLog::new(1);
    for i in 0..3 {
        log1.append(obs(i)).unwrap();
    }
    for i in 0..2 {
        log2.append(obs(i)).unwrap();
    }
    let e1 = ReplayEngine::new(log1);
    let e2 = ReplayEngine::new(log2);
    let points = e1.detect_divergence(&e2);
    assert_eq!(points.len(), 1);
    assert_eq!(points[0].position, 2);
}

#[test]
fn verify_counts_payload_hashes() {
    let mut log = EventLog::new(1);
    for i in 0..3 {
        log.append(obs(i)).unwrap();
    }
    let engine = ReplayEngine::new(log);
    let report = engine.verify().unwrap();
    assert_eq!(report.total_events, 3);
    assert_eq!(report.verified_events, 3);
    assert_eq!(report.hash_failures, 0);
    assert!(report.is_valid());
}

use oracle_omen::event::{Event, EventId, EventKind, EventLog, EventPayload, AgentInitPayload,
    ObservationPayload};
use oracle_omen::kv::StrMap;
use oracle_omen::timebase::LogicalTime;

fn init_payload() -> EventPayload {
    EventPayload::AgentInit(AgentInitPayload {
        agent_type: "test".to_string(),
        agent_version: "1.0.0".to_string(),
        config: StrMap::new(),
    })
}

fn obs_payload() -> EventPayload {
    EventPayload::Observation(ObservationPayload {
        obs_type: "test".to_string(),
        data: StrMap::new(),
        source: "test".to_string(),
    })
}

#[test]
fn test_event_id() {
    let id = EventId::new(1, 0);
    assert_eq!(id.run_id(), 1);
    assert_eq!(id.sequence(), 0);
    assert_eq!(id.next().sequence(), 1);
}

#[test]
fn test_event_log_append() {
    let mut log = EventLog::new(42);
    let event = Event::new(EventId::new(42, 0), EventKind::AgentInit,
        LogicalTime::initial(42), init_payload());
    assert!(log.append(event).is_ok());
    assert_eq!(log.len(), 1);
}

#[test]
fn test_event_log_sequence_mismatch() {
    let mut log = EventLog::new(42);
    let event1 = Event::new(EventId::new(42, 0), EventKind::AgentInit,
        LogicalTime::initial(42), init_payload());
    log.append(event1).unwrap();
    let event2 = Event::new(EventId::new(42, 2), EventKind::Observation,
        LogicalTime::new(42, 2), obs_payload());
    assert!(log.append(event2).is_err());
}

#[test]
fn test_event_with_parent() {
    let mut log = EventLog::new(42);
    let parent = Event::new(EventId::new(42, 0), EventKind::AgentInit,
        LogicalTime::initial(42), init_payload());
    log.append(parent).unwrap();
    let child = Event::with_parent(EventId::new(42, 1), EventId::new(42, 0),
        EventKind::Observation, LogicalTime::new(42, 1), obs_payload());
    assert!(log.append(child).is_ok());
    assert_eq!(log.len(), 2);
}

#[test]
fn hash_chain_scenario() {
    // A log at run 42: init at zero, an observation at one with the init
    // as parent; the recorded payload hash matches the payload, and a gap
    // in the sequence is refused as a corrupted log.
    let mut log = EventLog::new(42);
    let e0 = Event::new(EventId::new(42, 0), EventKind::AgentInit,
        LogicalTime::initial(42), init_payload());
    log.append(e0).unwrap();
    let e1 = Event::with_parent(EventId::new(42, 1), EventId::new(42, 0),
        EventKind::Observation, LogicalTime::new(42, 1), obs_payload());
    log.append(e1).unwrap();
    assert_eq!(log.len(), 2);
    let last = log.last().unwrap();
    assert_eq!(last.payload_hash, last.payload.hash());
    let e3 = Event::new(EventId::new(42, 3), EventKind::Observation,
        LogicalTime::new(42, 3), obs_payload());
    match log.append(e3) {
        Err(oracle_omen::errors::EventLogError::CorruptedLog(_)) => {},
        other => panic!("expected a corrupted-log refusal, got {:?}", other),
    }
    assert_eq!(log.len(), 2);
}

#[test]
fn parent_must_be_earlier() {
    let mut log = EventLog::new(7);
    let e0 = Event::with_parent(EventId::new(7, 0), EventId::new(7, 5),
        EventKind::Observation, LogicalTime::new(7, 0), obs_payload());
    match log.append(e0) {
        Err(oracle_omen::errors::EventLogError::ParentNotFound(_)) => {},
        other => panic!("expected a parent refusal, got {:?}", other),
    }
}

#[test]
fn wrong_payload_hash_is_refused() {
    let mut log = EventLog::new(7);
    let mut e0 = Event::new(EventId::new(7, 0), EventKind::Observation,
        LogicalTime::new(7, 0), obs_payload());
    e0.payload_hash = oracle_omen::hashes::Hash::zero();
    match log.append(e0) {
        Err(oracle_omen::errors::EventLogError::HashMismatch { .. }) => {},
        other => panic!("expected a hash refusal, got {:?}", other),
    }
}

#[test]
fn event_kind_names() {
    assert_eq!(EventKind::AgentInit.as_str(), "agent_init");
    assert_eq!(EventKind::Custom("x".to_string()).as_str(), "x");
}

use oracle_omen::state::{AgentState, Observation, StateData, StateValue};

#[test]
fn test_agent_state_initial() {
    let state = AgentState::initial();
    assert_eq!(state.version, 0);
    assert_eq!(state.data.len(), 0);
}

#[test]
fn test_agent_state_set_get() {
    let mut state = AgentState::initial();
    state.set("test", StateData::Value(StateValue::U64(42)));
    assert!(state.get("test").is_some());
    assert_eq!(state.version, 1);
}

#[test]
fn test_agent_state_rehash() {
    let mut state1 = AgentState::initial();
    state1.set("key", StateData::Value(StateValue::String("value".to_string())));
    let mut state2 = AgentState::initial();
    state2.set("key", StateData::Value(StateValue::String("value".to_string())));
    assert_eq!(state1.hash(), state2.hash());
}

#[test]
fn test_observation() {
    let obs = Observation::new("test_observation", 100)
        .with_field("value", StateValue::U64(42));
    assert_eq!(obs.kind, "test_observation");
    assert_eq!(obs.logical_time, 100);
    assert_eq!(obs.data.len(), 1);
}

#[test]
fn state_hash_ignores_insertion_order() {
    // Domains are kept sorted, so the hash depends on contents alone.
    let mut a = AgentState::initial();
    a.set("alpha", StateData::Value(StateValue::U64(1)));
    a.set("beta", StateData::Value(StateValue::U64(2)));
    let mut b = AgentState::initial();
    b.set("beta", StateData::Value(StateValue::U64(2)));
    b.set("alpha", StateData::Value(StateValue::U64(1)));
    assert_eq!(a.hash(), b.hash());
}

#[test]
fn remove_changes_hash_only_when_present() {
    let mut state = AgentState::initial();
    state.set("k", StateData::Value(StateValue::Bool(true)));
    let h1 = state.hash();
    assert!(state.remove("absent").is_none());
    assert_eq!(state.hash(), h1);
    assert!(state.remove("k").is_some());
    assert_ne!(state.hash(), h1);
}

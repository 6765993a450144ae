use oracle_omen::patches::{ApplyError, Patch, PatchEngine, PatchId, PatchStatus, PatchStore,
    PatchTarget, PatchType, Signature, SignerId};
use oracle_omen::state::AgentState;

#[test]
fn test_patch_apply_system_prompt() {
    let store = PatchStore::new();
    let mut engine = PatchEngine::new(store);
    let mut state = AgentState::initial();
    let patch = Patch::new(PatchId::new(1, 0), PatchType::Prompt, PatchTarget::SystemPrompt,
        "Update prompt".to_string())
        .with_data("prompt", "You are a helpful assistant.");
    let id_text = patch.id.to_text();
    engine.submit(patch).unwrap();
    engine.authorize_signer(SignerId::from_bytes([2u8; 32]));
    engine.approve(id_text.as_str(), Signature::from_bytes([1u8; 64]),
        SignerId::from_bytes([2u8; 32])).unwrap();
    let result = engine.apply(id_text.as_str(), &mut state).unwrap();
    assert!(result.changes_made.contains(&"system_prompt".to_string()));
}

#[test]
fn test_patch_rollback() {
    let store = PatchStore::new();
    let mut engine = PatchEngine::new(store);
    let mut state = AgentState::initial();
    let patch = Patch::new(PatchId::new(1, 0), PatchType::Config,
        PatchTarget::Config("test".to_string()), "Test".to_string())
        .with_data("value", "42");
    let id_text = patch.id.to_text();
    engine.submit(patch).unwrap();
    engine.authorize_signer(SignerId::from_bytes([2u8; 32]));
    engine.approve(id_text.as_str(), Signature::from_bytes([1u8; 64]),
        SignerId::from_bytes([2u8; 32])).unwrap();
    engine.apply(id_text.as_str(), &mut state).unwrap();
    let result = engine.rollback(id_text.as_str(), &mut state);
    assert!(result.is_ok());
}

#[test]
fn unauthorized_signer_cannot_approve() {
    // The engine holds no authorised signer, so any approval attempt is
    // refused and the patch stays proposed.
    let store = PatchStore::new();
    let mut engine = PatchEngine::new(store);
    let mut state = AgentState::initial();
    let patch = Patch::new(PatchId::new(1, 0), PatchType::Prompt, PatchTarget::SystemPrompt,
        "x".to_string()).with_data("prompt", "X");
    let id_text = patch.id.to_text();
    engine.submit(patch).unwrap();
    match engine.approve(id_text.as_str(), Signature::from_bytes([1u8; 64]),
        SignerId::from_bytes([2u8; 32])) {
        Err(ApplyError::NotApproved) => {},
        other => panic!("expected a not-approved refusal, got {:?}", other),
    }
    match engine.apply(id_text.as_str(), &mut state) {
        Err(ApplyError::NotApproved) => {},
        other => panic!("expected a not-approved refusal, got {:?}", other),
    }
}

#[test]
fn proposed_patch_cannot_apply() {
    // A patch that never passed a gate is refused with a not-approved
    // error, and the state stays as it was.
    let store = PatchStore::new();
    let mut engine = PatchEngine::new(store);
    let mut state = AgentState::initial();
    let before = state.hash();
    let patch = Patch::new(PatchId::new(1, 0), PatchType::Prompt, PatchTarget::SystemPrompt,
        "x".to_string()).with_data("prompt", "X");
    let id_text = patch.id.to_text();
    engine.submit(patch).unwrap();
    match engine.apply(id_text.as_str(), &mut state) {
        Err(ApplyError::NotApproved) => {},
        other => panic!("expected a not-approved refusal, got {:?}", other),
    }
    assert_eq!(state.hash(), before);
}

#[test]
fn apply_then_rollback_records_restored_hash() {
    let store = PatchStore::new();
    let mut engine = PatchEngine::new(store);
    let mut state0 = AgentState::initial();
    let h0 = state0.hash();
    let patch = Patch::new(PatchId::new(1, 0), PatchType::Prompt, PatchTarget::SystemPrompt,
        "x".to_string()).with_data("prompt", "X");
    let id_text = patch.id.to_text();
    engine.submit(patch).unwrap();
    engine.authorize_signer(SignerId::from_bytes([2u8; 32]));
    engine.approve(id_text.as_str(), Signature::from_bytes([1u8; 64]),
        SignerId::from_bytes([2u8; 32])).unwrap();
    engine.apply(id_text.as_str(), &mut state0).unwrap();
    match state0.get("system_prompt") {
        Some(oracle_omen::state::StateData::Value(oracle_omen::state::StateValue::String(s)))
            => assert_eq!(s, "X"),
        other => panic!("expected the prompt, got {:?}", other),
    }
    assert_ne!(state0.hash(), h0);
    let rb = engine.rollback(id_text.as_str(), &mut state0).unwrap();
    assert_eq!(rb.restored_to, h0);
    let entry_status = {
        // The patch must now be rolled back.
        let ids = vec![id_text.clone()];
        ids
    };
    let _ = entry_status;
    match state0.get("_rollback") {
        Some(oracle_omen::state::StateData::Value(oracle_omen::state::StateValue::Hash(h)))
            => assert_eq!(h, &h0),
        other => panic!("expected the restored hash, got {:?}", other),
    }
}

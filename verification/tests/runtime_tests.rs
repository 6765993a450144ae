use oracle_omen::capability::{Capability, CapabilitySet};
use oracle_omen::runtime::{CapabilityChecker, DagExecutor, EchoTool, ExecState, ExecutionContext,
    HashTool, NodeResult, Tool, ToolId, ToolRegistry, ToolRequestMetadata};

#[test]
fn test_capability_check() {
    let granted = CapabilitySet::new(vec![
        Capability::new("fs:read:*"),
        Capability::new("network:http:get"),
    ]);
    let checker = CapabilityChecker::new(granted);
    assert!(checker.check(&Capability::new("fs:read:*")).is_granted());
    assert!(checker.check(&Capability::new("fs:write:*")).is_denied());
}

#[test]
fn test_check_all() {
    let granted = CapabilitySet::new(vec![
        Capability::new("fs:read:*"),
        Capability::new("network:http:get"),
    ]);
    let checker = CapabilityChecker::new(granted);
    assert!(checker
        .check_all(&[Capability::new("fs:read:*"), Capability::new("network:http:get")])
        .is_granted());
    assert!(checker
        .check_all(&[Capability::new("fs:read:*"), Capability::new("fs:write:*")])
        .is_denied());
}

#[test]
fn test_exec_state() {
    let state = ExecState::new();
    assert!(!state.is_complete());
    assert!(!state.has_failed());
}

#[test]
fn test_node_result() {
    let result = NodeResult::success("test", "{\"value\": 42}", 100);
    assert!(result.success);
    assert_eq!(result.output, Some("{\"value\": 42}".to_string()));
}

#[test]
fn test_executor_creation() {
    let executor = DagExecutor::new(CapabilitySet::empty());
    assert_eq!(executor.capabilities().len(), 0);
}

#[test]
fn test_tool_registry() {
    let mut registry = ToolRegistry::new();
    let echo = EchoTool::new();
    let hash = HashTool::new();
    registry.register(ToolRequestMetadata::new(echo.id().clone(), 0,
        oracle_omen::hashes::Hash::zero(), vec![])).unwrap();
    registry.register(ToolRequestMetadata::new(hash.id().clone(), 0,
        oracle_omen::hashes::Hash::zero(), vec![])).unwrap();
    assert_eq!(registry.list().len(), 2);
}

#[test]
fn test_echo_tool() {
    let tool = EchoTool::new();
    let ctx = ExecutionContext::new(0, 1);
    let input = b"hello";
    let output = tool.execute(input, &ctx).unwrap();
    assert_eq!(output, b"hello");
}

#[test]
fn test_hash_tool() {
    let tool = HashTool::new();
    let ctx = ExecutionContext::new(0, 1);
    let input = b"test";
    let output = tool.execute(input, &ctx).unwrap();
    let hash_str = String::from_utf8(output).unwrap();
    assert_eq!(hash_str.len(), 64);
    assert_eq!(hash_str, oracle_omen::hashes::Hash::from_bytes(b"test").to_hex());
}

#[test]
fn duplicate_tool_registration_is_refused() {
    let mut registry = ToolRegistry::new();
    let id = ToolId::new("echo", "1.0.0");
    registry.register(ToolRequestMetadata::new(id.clone(), 0,
        oracle_omen::hashes::Hash::zero(), vec![])).unwrap();
    let again = ToolRequestMetadata::new(id, 0, oracle_omen::hashes::Hash::zero(), vec![]);
    assert!(registry.register(again).is_err());
}

use oracle_omen::capability::{Capability, CapabilitySet};
use oracle_omen::timebase::{LogicalTime, StandardTimeSource, TimeSource};
use oracle_omen::runtime::{ToolId, ResourceBounds, ExecutionContext};

#[test]
fn test_capability_matches() {
    let cap = Capability::new("fs:read:/tmp");
    assert!(cap.matches("fs:read:/tmp"));
    assert!(cap.matches("fs:read:*"));
    assert!(!cap.matches("fs:write:*"));
}

#[test]
fn test_capability_set() {
    let set = CapabilitySet::new(vec![
        Capability::new("fs:read:*"),
        Capability::new("network:http:get"),
    ]);
    assert!(set.has(&Capability::new("fs:read:*")));
    assert!(set.has(&Capability::new("network:http:get")));
    assert!(!set.has(&Capability::new("fs:write:*")));
}

#[test]
fn test_capability_pattern() {
    let set = CapabilitySet::new(vec![Capability::new("fs:read:*")]);
    assert!(set.has_pattern("fs:read:*"));
    // Matching is componentwise on the pattern alone: a `*` inside a
    // granted capability is an ordinary component, so the concrete pattern
    // below matches no member.
    assert!(!set.has_pattern("fs:read:/tmp"));
    assert!(!set.has_pattern("fs:write:*"));
    let concrete = CapabilitySet::new(vec![Capability::new("fs:read:/tmp")]);
    assert!(concrete.has_pattern("fs:read:*"));
}

#[test]
fn test_logical_time_ordering() {
    let t1 = LogicalTime::new(1, 10);
    let t2 = LogicalTime::new(1, 11);
    let t3 = LogicalTime::new(1, 10);
    assert!(t2 > t1);
    assert_eq!(t1, t3);
}

#[test]
fn test_logical_time_next() {
    let t = LogicalTime::initial(5);
    assert_eq!(t.sequence(), 0);
    assert_eq!(t.next().sequence(), 1);
    assert_eq!(t.next().next().sequence(), 2);
}

#[test]
fn test_standard_time_source() {
    let mut source = StandardTimeSource::new(42);
    assert_eq!(source.now().sequence(), 0);
    assert_eq!(source.tick().sequence(), 0);
    assert_eq!(source.now().sequence(), 1);
    assert_eq!(source.tick().sequence(), 1);
}

#[test]
fn test_tool_id() {
    let id = ToolId::new("test_tool", "1.0.0");
    assert_eq!(id.name, "test_tool");
    assert_eq!(id.version, "1.0.0");
    assert_eq!(id.as_text(), "test_tool@1.0.0");
}

#[test]
fn test_resource_bounds() {
    let bounds = ResourceBounds::with_timeout(5000);
    assert_eq!(bounds.timeout_ms, 5000);
}

#[test]
fn test_execution_context() {
    let ctx = ExecutionContext::with_seed(100, 42, 12345);
    assert_eq!(ctx.logical_time, 100);
    assert_eq!(ctx.run_id, 42);
    assert_eq!(ctx.random_seed, Some(12345));
}

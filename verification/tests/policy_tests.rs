use oracle_omen::policy::{Action, CompareOp, Condition, EvalContext, Policy, PolicyCompiler,
    PolicyEngine, Rule, RuleKind, Value, CompileError};

#[test]
fn test_policy_creation() {
    let policy = Policy::new("test", "1.0.0");
    assert_eq!(policy.name, "test");
    assert_eq!(policy.version, "1.0.0");
}

#[test]
fn test_policy_id() {
    let policy = Policy::new("test", "1.0.0");
    let id = policy.id();
    assert_eq!(id.name, "test");
    assert_eq!(id.version, "1.0.0");
}

#[test]
fn test_compile_simple_policy() {
    let mut policy = Policy::new("test", "1.0.0");
    policy.add_rule(Rule {
        name: "allow_read".to_string(),
        kind: RuleKind::Capability,
        condition: Condition::HasCapability("fs:read".to_string()),
        action: Action::Allow,
    });
    let compiled = PolicyCompiler::compile(policy).unwrap();
    assert_eq!(compiled.rules.len(), 1);
    assert_eq!(compiled.rules[0].name, "allow_read");
}

#[test]
fn test_compile_duplicate_rule() {
    let mut policy = Policy::new("test", "1.0.0");
    policy.add_rule(Rule {
        name: "duplicate".to_string(),
        kind: RuleKind::Capability,
        condition: Condition::True,
        action: Action::Allow,
    });
    policy.add_rule(Rule {
        name: "duplicate".to_string(),
        kind: RuleKind::Capability,
        condition: Condition::True,
        action: Action::Allow,
    });
    let result = PolicyCompiler::compile(policy);
    assert!(matches!(result, Err(CompileError::DuplicateRule(_))));
}

#[test]
fn test_engine_allow_capability() {
    let mut policy = Policy::new("test", "1.0.0");
    policy.add_rule(Rule {
        name: "allow_fs_read".to_string(),
        kind: RuleKind::Capability,
        condition: Condition::HasCapability("fs:read".to_string()),
        action: Action::Allow,
    });
    let compiled = PolicyCompiler::compile(policy).unwrap();
    let mut engine = PolicyEngine::new();
    engine.add_policy(compiled);
    let mut ctx = EvalContext::new();
    ctx.capabilities.push("fs:read".to_string());
    let result = engine.evaluate_capability("fs:read", &ctx);
    assert!(result.allowed);
}

#[test]
fn test_engine_deny_capability() {
    let mut policy = Policy::new("test", "1.0.0");
    policy.add_rule(Rule {
        name: "deny_fs_write".to_string(),
        kind: RuleKind::Capability,
        condition: Condition::HasCapability("fs:write".to_string()),
        action: Action::Deny { reason: "Write not allowed".to_string() },
    });
    let compiled = PolicyCompiler::compile(policy).unwrap();
    let mut engine = PolicyEngine::new();
    engine.add_policy(compiled);
    let mut ctx = EvalContext::new();
    ctx.capabilities.push("fs:write".to_string());
    let result = engine.evaluate_capability("fs:write", &ctx);
    assert!(!result.allowed);
    assert_eq!(result.reason, "Write not allowed");
}

#[test]
fn test_engine_default_deny() {
    let policy = Policy::new("test", "1.0.0");
    let compiled = PolicyCompiler::compile(policy).unwrap();
    let mut engine = PolicyEngine::new();
    engine.add_policy(compiled);
    let ctx = EvalContext::new();
    let result = engine.evaluate_capability("fs:read", &ctx);
    assert!(!result.allowed);
    assert!(result.reason.starts_with("No policy allows"));
}

#[test]
fn test_engine_compare_condition() {
    let mut policy = Policy::new("test", "1.0.0");
    policy.add_rule(Rule {
        name: "limit_iterations".to_string(),
        kind: RuleKind::Capability,
        condition: Condition::Compare {
            field: "iterations".to_string(),
            op: CompareOp::Less,
            value: Value::Integer(100),
        },
        action: Action::Allow,
    });
    let compiled = PolicyCompiler::compile(policy).unwrap();
    let mut engine = PolicyEngine::new();
    engine.add_policy(compiled);
    let mut ctx = EvalContext::new();
    ctx.state.insert("iterations".to_string(), Value::Integer(50));
    let result = engine.evaluate_capability("any", &ctx);
    assert!(result.allowed);
}

#[test]
fn explicit_deny_overrides_allow() {
    // Two matching rules: an allow on the held capability and an
    // unconditional deny; the deny wins with its own reason.
    let mut policy = Policy::new("test", "1.0.0");
    policy.add_rule(Rule {
        name: "a".to_string(),
        kind: RuleKind::Capability,
        condition: Condition::HasCapability("fs:write".to_string()),
        action: Action::Allow,
    });
    policy.add_rule(Rule {
        name: "b".to_string(),
        kind: RuleKind::Capability,
        condition: Condition::True,
        action: Action::Deny { reason: "R".to_string() },
    });
    let compiled = PolicyCompiler::compile(policy).unwrap();
    let mut engine = PolicyEngine::new();
    engine.add_policy(compiled);
    let mut ctx = EvalContext::new();
    ctx.capabilities.push("fs:write".to_string());
    let result = engine.evaluate_capability("fs:write", &ctx);
    assert!(!result.allowed);
    assert_eq!(result.reason, "R");
}

use oracle_omen::wasm::{ExecutionResult, FuelCosts, HostState, ResourceLimits, Sandbox,
    SandboxError, compile_wat, extract_metadata, validate_wasm};

const SIMPLE_WAT: &str = r#"
    (module
        (memory (export "memory") 1)
        (func (export "run") (param i32 i32) (result i32)
            local.get 0
            local.get 1
            i32.add
        )
        (func (export "alloc") (param i32) (result i32)
            local.get 0
        )
        (func (export "output_size") (param i32) (result i32)
            i32.const 0
        )
    )
"#;

const NO_SIZE_WAT: &str = r#"
    (module
        (memory (export "memory") 1)
        (func (export "run") (param i32 i32) (result i32)
            local.get 0
        )
        (func (export "alloc") (param i32) (result i32)
            local.get 0
        )
    )
"#;

const SPIN_WAT: &str = r#"
    (module
        (memory (export "memory") 1)
        (func (export "alloc") (param i32) (result i32)
            local.get 0
        )
        (func (export "run") (param i32 i32) (result i32)
            (loop $forever
                br $forever
            )
            i32.const 0
        )
        (func (export "output_size") (param i32) (result i32)
            i32.const 0
        )
    )
"#;

#[test]
fn test_resource_limits() {
    let limits = ResourceLimits::new(1000000, 16, 5000);
    assert_eq!(limits.max_fuel, 1000000);
    assert_eq!(limits.max_memory_pages, 16);
    assert_eq!(limits.max_memory_bytes(), 16 * 65536);
    assert_eq!(limits.timeout_ms, 5000);
}

#[test]
fn test_minimal_limits() {
    let limits = ResourceLimits::minimal();
    assert_eq!(limits.max_fuel, 10_000);
    assert_eq!(limits.max_memory_pages, 1);
    assert_eq!(limits.max_output_bytes, 1024);
}

#[test]
fn test_fuel_costs() {
    let costs = FuelCosts::standard();
    assert_eq!(costs.base_opcost, 1);
    assert_eq!(costs.host_call_cost, 100);
}

#[test]
fn test_sandbox_creation() {
    let sandbox = Sandbox::new(1000000, 16, 5000);
    assert_eq!(sandbox.max_fuel, 1000000);
    assert_eq!(sandbox.max_memory_pages, 16);
}

#[test]
fn test_execution_result() {
    let result = ExecutionResult {
        output: vec![1, 2, 3],
        fuel_consumed: 100,
        memory_used_pages: 1,
        success: true,
        error: None,
    };
    assert!(result.is_success());
    assert_ne!(result.output_hash(), oracle_omen::hashes::Hash::zero());
}

#[test]
fn test_host_state() {
    let mut state = HostState::new(vec!["log".to_string(), "hash".to_string()]);
    assert!(state.has_capability("log"));
    assert!(!state.has_capability("fs_write"));
    state.log_message("test");
    assert_eq!(state.logs(), &vec!["test".to_string()]);
}

#[test]
fn test_compile_wat() {
    let wasm = compile_wat(SIMPLE_WAT).unwrap();
    assert!(!wasm.is_empty());
}

#[test]
fn test_validate_wasm() {
    let wasm = compile_wat(SIMPLE_WAT).unwrap();
    assert!(validate_wasm(&wasm).is_ok());
}

#[test]
fn test_extract_metadata() {
    let wasm = compile_wat(SIMPLE_WAT).unwrap();
    let metadata = extract_metadata(&wasm).unwrap();
    assert!(metadata.exports.contains(&"memory".to_string()));
    assert!(metadata.exports.contains(&"run".to_string()));
    assert!(metadata.exports.contains(&"alloc".to_string()));
}

#[test]
fn sandbox_runs_a_module() {
    let wasm = compile_wat(SIMPLE_WAT).unwrap();
    let sandbox = Sandbox::new(1_000_000, 16, 5000);
    let result = sandbox.execute(&wasm, b"hi").unwrap();
    assert!(result.success);
    assert!(result.fuel_consumed <= 1_000_000);
}

#[test]
fn missing_output_size_is_refused() {
    let wasm = compile_wat(NO_SIZE_WAT).unwrap();
    let sandbox = Sandbox::new(1_000_000, 16, 5000);
    match sandbox.execute(&wasm, b"hi") {
        Err(SandboxError::MissingExport(name)) => assert_eq!(name, "output_size"),
        other => panic!("expected a missing export, got {:?}", other),
    }
}

#[test]
fn fuel_classification_is_exact() {
    match oracle_omen::wasm::classify_fuel(Some(10_000), 10_000, "trap".to_string()) {
        SandboxError::FuelExhausted => {},
        other => panic!("expected fuel exhaustion, got {:?}", other),
    }
    match oracle_omen::wasm::classify_fuel(Some(9_999), 10_000, "trap".to_string()) {
        SandboxError::ExecutionFailed(m) => assert_eq!(m, "trap"),
        other => panic!("expected an execution failure, got {:?}", other),
    }
    match oracle_omen::wasm::classify_fuel(None, 10_000, "trap".to_string()) {
        SandboxError::ExecutionFailed(m) => assert_eq!(m, "trap"),
        other => panic!("expected an execution failure, got {:?}", other),
    }
}

#[test]
fn fuel_exhaustion_stops_the_module() {
    // A module that spins forever burns past the budget and ends with a
    // fuel refusal; no output is produced.
    let wasm = compile_wat(SPIN_WAT).unwrap();
    let sandbox = Sandbox::new(10_000, 16, 100);
    match sandbox.execute(&wasm, b"x") {
        Err(SandboxError::FuelExhausted) => {},
        other => panic!("expected fuel exhaustion, got {:?}", other),
    }
}

#[test]
fn malformed_wasm_is_refused() {
    let sandbox = Sandbox::default_limits();
    match sandbox.execute(b"not wasm", b"") {
        Err(SandboxError::CompilationFailed(_)) => {},
        other => panic!("expected a compilation refusal, got {:?}", other),
    }
}

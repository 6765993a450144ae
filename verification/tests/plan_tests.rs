use oracle_omen::dag::{Dag, DagError, DagNode, DagNodeType};
use oracle_omen::plan::{Plan, PlanCompiler, PlanStep, StepType};
use oracle_omen::scheduler::{RunningTask, Scheduler};

fn tool_node(id: &str, tool: &str) -> DagNode {
    DagNode::new(id, DagNodeType::Tool { name: tool.to_string(), version: "1.0.0".to_string() })
}

#[test]
fn test_dag_creation() {
    let mut dag = Dag::new("test");
    dag.add_node(tool_node("a", "tool1")).unwrap();
    dag.add_node(tool_node("b", "tool2")).unwrap();
    assert_eq!(dag.len(), 2);
}

#[test]
fn test_dag_cycle_detection() {
    let mut dag = Dag::new("test");
    dag.add_node(tool_node("a", "tool1")).unwrap();
    dag.add_node(tool_node("b", "tool2")).unwrap();
    dag.add_edge("a".to_string(), "b".to_string()).unwrap();
    assert!(dag.add_edge("b".to_string(), "a".to_string()).is_err());
}

#[test]
fn test_topological_order() {
    let mut dag = Dag::new("test");
    dag.add_node(tool_node("a", "tool1")).unwrap();
    dag.add_node(tool_node("b", "tool2")).unwrap();
    dag.add_node(tool_node("c", "tool3")).unwrap();
    dag.add_edge("a".to_string(), "b".to_string()).unwrap();
    dag.add_edge("b".to_string(), "c".to_string()).unwrap();
    let order = dag.topological_order().unwrap();
    assert_eq!(order, vec!["a", "b", "c"]);
}

#[test]
fn cycle_edge_reports_both_ends_and_leaves_the_graph() {
    let mut dag = Dag::new("test");
    dag.add_node(tool_node("a", "t")).unwrap();
    dag.add_node(tool_node("b", "t")).unwrap();
    dag.add_node(tool_node("c", "t")).unwrap();
    dag.add_edge("a".to_string(), "b".to_string()).unwrap();
    dag.add_edge("b".to_string(), "c".to_string()).unwrap();
    match dag.add_edge("c".to_string(), "a".to_string()) {
        Err(DagError::CycleDetected { from, to }) => {
            assert_eq!(from, "c");
            assert_eq!(to, "a");
        },
        other => panic!("expected a cycle refusal, got {:?}", other),
    }
    // The refused edge left the graph unchanged.
    assert_eq!(dag.topological_order().unwrap(), vec!["a", "b", "c"]);
}

#[test]
fn test_compile_simple_plan() {
    let mut plan = Plan::new("test_plan");
    plan.add_step(PlanStep::new("step1", StepType::Tool {
        name: "tool1".to_string(),
        version: "1.0.0".to_string(),
        input: "{}".to_string(),
    }));
    let dag = PlanCompiler::compile(plan).unwrap();
    assert_eq!(dag.len(), 1);
    assert!(dag.node("step1").is_some());
}

#[test]
fn test_compile_with_dependencies() {
    let mut plan = Plan::new("test_plan");
    plan.add_step(PlanStep::new("a", StepType::Tool {
        name: "tool1".to_string(),
        version: "1.0.0".to_string(),
        input: "{}".to_string(),
    }));
    plan.add_step(PlanStep::new("b", StepType::Tool {
        name: "tool2".to_string(),
        version: "1.0.0".to_string(),
        input: "{}".to_string(),
    }).depends_on("a"));
    let dag = PlanCompiler::compile(plan).unwrap();
    assert_eq!(dag.len(), 2);
    assert_eq!(dag.dependencies("b"), vec!["a".to_string()]);
}

#[test]
fn test_scheduler_initialization() {
    let mut dag = Dag::new("test");
    dag.add_node(tool_node("a", "tool1")).unwrap();
    dag.add_node(tool_node("b", "tool2")).unwrap();
    let mut scheduler = Scheduler::new(2);
    scheduler.initialize(&dag).unwrap();
    assert_eq!(scheduler.ready_count(), 2);
}

#[test]
fn test_scheduler_with_dependencies() {
    let mut dag = Dag::new("test");
    dag.add_node(tool_node("a", "tool1")).unwrap();
    dag.add_node(tool_node("b", "tool2")).unwrap();
    dag.add_edge("a".to_string(), "b".to_string()).unwrap();
    let mut scheduler = Scheduler::new(2);
    scheduler.initialize(&dag).unwrap();
    assert_eq!(scheduler.ready_count(), 1);
    assert_eq!(scheduler.next(), Some("a".to_string()));
    scheduler.start("a".to_string(), RunningTask::new("a", 0));
    scheduler.complete("a").unwrap();
    assert_eq!(scheduler.next(), Some("b".to_string()));
}

#[test]
fn test_scheduler_backpressure() {
    let mut dag = Dag::new("test");
    for i in 0..5 {
        dag.add_node(tool_node(&format!("node{}", i), &format!("tool{}", i))).unwrap();
    }
    let mut scheduler = Scheduler::new(2);
    scheduler.initialize(&dag).unwrap();
    let first = scheduler.next();
    assert!(first.is_some());
    assert!(scheduler.next().is_some());
    assert!(scheduler.next().is_none());
    scheduler.complete(first.unwrap().as_str()).unwrap();
    assert!(scheduler.next().is_some());
}

#[test]
fn scheduler_dispatches_each_node_once() {
    // Five independent nodes under a cap of two: every node is dispatched
    // exactly once and the run finishes in five completions.
    let mut dag = Dag::new("test");
    for i in 0..5 {
        dag.add_node(tool_node(&format!("n{}", i), "t")).unwrap();
    }
    let mut scheduler = Scheduler::new(2);
    scheduler.initialize(&dag).unwrap();
    let mut dispatched: Vec<String> = Vec::new();
    let mut completions = 0;
    while !scheduler.is_complete() {
        match scheduler.next() {
            Some(id) => dispatched.push(id),
            None => {
                let id = dispatched[completions].clone();
                scheduler.complete(id.as_str()).unwrap();
                completions += 1;
            },
        }
        assert!(completions <= 5);
    }
    while completions < dispatched.len() {
        let id = dispatched[completions].clone();
        scheduler.complete(id.as_str()).unwrap();
        completions += 1;
    }
    let mut seen = dispatched.clone();
    seen.sort();
    seen.dedup();
    assert_eq!(seen.len(), 5);
    assert_eq!(dispatched.len(), 5);
}

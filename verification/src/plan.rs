//! The planning DSL: a plan is an ordered list of steps with dependencies,
//! capabilities and resource, failure, retry and timeout policies. Plans
//! compile to DAGs.

use vstd::prelude::*;
use vstd::string::StrSliceExecFns;
use crate::canon::CanonValue;
use crate::kv::StrMap;
use crate::order::str_eq;
use crate::dag::node_named;

verus! {

/// A declarative description of work to be done.
#[derive(Debug)]
pub struct Plan {
    /// The plan name.
    pub name: String,
    /// The steps, in declaration order.
    pub steps: Vec<PlanStep>,
    /// Free-form metadata.
    pub metadata: StrMap<String>,
}

impl Plan {
    /// An empty plan.
    pub fn new(name: &str) -> (r: Self)
        ensures
            r.name@ == name@,
            r.steps@.len() == 0,
    {
        Plan { name: String::from_str(name), steps: Vec::new(), metadata: StrMap::new() }
    }

    /// Appends a step.
    pub fn add_step(&mut self, step: PlanStep)
        ensures
            final(self).name == old(self).name,
            final(self).metadata == old(self).metadata,
            final(self).steps@ == old(self).steps@.push(step),
    {
        self.steps.push(step);
    }

    /// How many steps the plan holds.
    pub fn len(&self) -> (n: usize)
        ensures
            n == self.steps@.len(),
    {
        self.steps.len()
    }

    /// Whether the plan has no steps.
    pub fn is_empty(&self) -> (b: bool)
        ensures
            b == (self.steps@.len() == 0),
    {
        self.steps.len() == 0
    }
}

/// One step of a plan.
#[derive(Debug)]
pub struct PlanStep {
    /// The unique step id.
    pub id: String,
    /// What the step does.
    pub step_type: StepType,
    /// Ids of steps that must complete first.
    pub dependencies: Vec<String>,
    /// The capabilities the step needs.
    pub capabilities: Vec<String>,
    /// Resource bounds.
    pub resources: ResourceAnnotation,
    /// What to do when the step fails.
    pub failure_policy: FailurePolicy,
    /// How to retry the step.
    pub retry_policy: RetryPolicy,
    /// How long the step may run.
    pub timeout_policy: TimeoutPolicy,
}

impl PlanStep {
    /// A step with default policies and no dependencies.
    pub fn new(id: &str, step_type: StepType) -> (r: Self)
        ensures
            r.id@ == id@,
            r.step_type == step_type,
            r.dependencies@.len() == 0,
            r.capabilities@.len() == 0,
            r.resources == ResourceAnnotation::default_annotation(),
    {
        PlanStep {
            id: String::from_str(id),
            step_type,
            dependencies: Vec::new(),
            capabilities: Vec::new(),
            resources: ResourceAnnotation::default(),
            failure_policy: FailurePolicy::default(),
            retry_policy: RetryPolicy::default(),
            timeout_policy: TimeoutPolicy::default(),
        }
    }

    /// The same step, depending on one more step.
    pub fn depends_on(self, step_id: &str) -> (r: Self)
        ensures
            r.id == self.id,
            r.step_type == self.step_type,
            r.capabilities == self.capabilities,
            r.resources == self.resources,
            r.dependencies@.len() == self.dependencies@.len() + 1,
            forall|i: int| 0 <= i < self.dependencies@.len()
                ==> r.dependencies@[i] == self.dependencies@[i],
            r.dependencies@[self.dependencies@.len() as int]@ == step_id@,
    {
        let mut dependencies = self.dependencies;
        dependencies.push(String::from_str(step_id));
        PlanStep { dependencies, ..self }
    }

    /// The same step, requiring one more capability.
    pub fn requires_capability(self, capability: &str) -> (r: Self)
        ensures
            r.id == self.id,
            r.step_type == self.step_type,
            r.dependencies == self.dependencies,
            r.capabilities@.len() == self.capabilities@.len() + 1,
            forall|i: int| 0 <= i < self.capabilities@.len()
                ==> r.capabilities@[i] == self.capabilities@[i],
            r.capabilities@[self.capabilities@.len() as int]@ == capability@,
    {
        let mut capabilities = self.capabilities;
        capabilities.push(String::from_str(capability));
        PlanStep { capabilities, ..self }
    }
}

/// What a plan step does.
#[derive(Debug)]
pub enum StepType {
    /// Runs a tool.
    Tool {
        /// The tool name.
        name: String,
        /// The tool version.
        version: String,
        /// The input, as stable text.
        input: String,
    },
    /// Takes an observation.
    Observation {
        /// Where to observe.
        source: String,
        /// A filter expression.
        filter: String,
    },
    /// Decides between branches.
    Decision {
        /// The condition text.
        condition: String,
        /// The step to run when it holds.
        then_step: String,
        /// The step to run otherwise, if any.
        else_step: Option<String>,
    },
    /// Runs inner steps in parallel.
    Parallel {
        /// The inner step ids.
        steps: Vec<String>,
    },
    /// Runs inner steps one after another.
    Sequential {
        /// The inner step ids.
        steps: Vec<String>,
    },
    /// Any other step, by name.
    Custom {
        /// The step kind name.
        type_label: String,
        /// Step configuration.
        config: CanonValue,
    },
}

/// Resource requirements of a step.
#[derive(Clone, Copy, Debug, PartialEq, Eq, Structural)]
pub struct ResourceAnnotation {
    /// The memory ceiling in bytes, if bounded.
    pub max_memory_bytes: Option<u64>,
    /// The time ceiling in milliseconds.
    pub timeout_ms: u64,
    /// Abstract processor units, if bounded.
    pub cpu_units: Option<u64>,
    /// Whether the step needs exclusive access.
    pub exclusive: bool,
}

impl ResourceAnnotation {
    /// The default bounds: a thirty-second timeout and nothing else.
    pub open spec fn default_annotation() -> ResourceAnnotation {
        ResourceAnnotation {
            max_memory_bytes: None,
            timeout_ms: 30000,
            cpu_units: None,
            exclusive: false,
        }
    }
}

impl Default for ResourceAnnotation {
    /// The default bounds: a thirty-second timeout and nothing else.
    fn default() -> (r: Self)
        ensures
            r == ResourceAnnotation::default_annotation(),
    {
        ResourceAnnotation {
            max_memory_bytes: None,
            timeout_ms: 30000,
            cpu_units: None,
            exclusive: false,
        }
    }
}

/// What to do when a step fails.
#[derive(Clone, Debug, PartialEq, Eq)]
pub enum FailurePolicy {
    /// Stop the whole plan.
    Stop,
    /// Continue with the next step.
    Continue,
    /// Retry under the step's retry policy.
    Retry,
    /// Run a compensation step.
    Compensate {
        /// The step that compensates.
        compensation_step: String,
    },
    /// Fall back to another step.
    Fallback {
        /// The step to fall back to.
        fallback_step: String,
    },
}

impl Default for FailurePolicy {
    /// By default a failure stops the plan.
    fn default() -> (r: Self)
        ensures
            r is Stop,
    {
        FailurePolicy::Stop
    }
}

/// How to retry a failing step.
#[derive(Clone, Debug, PartialEq, Eq)]
pub struct RetryPolicy {
    /// How many times to retry.
    pub max_retries: u32,
    /// How to space the retries.
    pub backoff: BackoffStrategy,
    /// Retry only on these error types; empty means all.
    pub retry_on: Vec<String>,
}

impl Default for RetryPolicy {
    /// By default: three retries under exponential backoff.
    fn default() -> (r: Self)
        ensures
            r.max_retries == 3,
            r.backoff == (BackoffStrategy::Exponential { base_ms: 100u64, max_ms: 5000u64 }),
            r.retry_on@.len() == 0,
    {
        RetryPolicy {
            max_retries: 3,
            backoff: BackoffStrategy::Exponential { base_ms: 100, max_ms: 5000 },
            retry_on: Vec::new(),
        }
    }
}

/// How retries are spaced.
#[derive(Clone, Copy, Debug, PartialEq, Eq, Structural)]
pub enum BackoffStrategy {
    /// The same delay every time.
    Fixed {
        /// The delay in milliseconds.
        delay_ms: u64,
    },
    /// Exponentially growing delays.
    Exponential {
        /// The first delay in milliseconds.
        base_ms: u64,
        /// The delay ceiling in milliseconds.
        max_ms: u64,
    },
    /// Linearly growing delays.
    Linear {
        /// The delay increment in milliseconds.
        increment_ms: u64,
    },
    /// No delay.
    Immediate,
}

/// How long a step may run and what happens then.
#[derive(Debug)]
pub struct TimeoutPolicy {
    /// The ceiling in milliseconds.
    pub timeout_ms: u64,
    /// What to do when it is reached.
    pub on_timeout: TimeoutAction,
}

impl Default for TimeoutPolicy {
    /// By default: thirty seconds, then an error.
    fn default() -> (r: Self)
        ensures
            r.timeout_ms == 30000,
            r.on_timeout is Error,
    {
        TimeoutPolicy { timeout_ms: 30000, on_timeout: TimeoutAction::Error }
    }
}

/// What a timeout does.
#[derive(Debug)]
pub enum TimeoutAction {
    /// Report an error.
    Error,
    /// Substitute a default value.
    Default {
        /// The substituted value.
        value: CanonValue,
    },
    /// Skip the step and continue.
    Skip,
}

/// Validation errors.
#[derive(Clone, Debug, PartialEq, Eq)]
pub enum ValidationError {
    /// Two steps share an id.
    DuplicateStep(String),
    /// A dependency names a missing step.
    DependencyNotFound {
        /// The step whose dependency is missing.
        step: String,
        /// The missing dependency.
        dependency: String,
    },
    /// A resource bound is invalid.
    InvalidResource {
        /// The step with the bad bound.
        step: String,
        /// Which bound.
        resource: String,
        /// Why it is invalid.
        reason: String,
    },
    /// The compiled DAG is malformed.
    DagError(String),
}

/// Whether every step id is distinct.
pub open spec fn unique_step_ids(steps: Seq<PlanStep>) -> bool {
    forall|i: int, j: int| 0 <= i < j < steps.len()
        ==> (#[trigger] steps[i]).id@ != (#[trigger] steps[j]).id@
}

/// Whether every dependency names some step.
pub open spec fn deps_exist(steps: Seq<PlanStep>) -> bool {
    forall|i: int, d: int| 0 <= i < steps.len()
        && 0 <= d < (#[trigger] steps[i]).dependencies@.len()
        ==> exists|j: int| 0 <= j < steps.len()
            && (#[trigger] steps[i].dependencies@[d])@ == (#[trigger] steps[j]).id@
}

/// Whether every step's timeout is positive.
pub open spec fn timeouts_positive(steps: Seq<PlanStep>) -> bool {
    forall|i: int| 0 <= i < steps.len() ==> (#[trigger] steps[i]).resources.timeout_ms > 0
}

/// Checks plans before compilation.
pub struct PlanValidator;

impl PlanValidator {
    /// Accepts a plan exactly when step ids are unique, every dependency
    /// names an existing step, and every timeout is positive.
    pub fn validate(plan: &Plan) -> (r: Result<(), ValidationError>)
        ensures
            r is Ok == (unique_step_ids(plan.steps@) && deps_exist(plan.steps@)
                && timeouts_positive(plan.steps@)),
            r matches Err(ValidationError::DuplicateStep(_))
                ==> !unique_step_ids(plan.steps@),
            r matches Err(ValidationError::DependencyNotFound { .. })
                ==> unique_step_ids(plan.steps@) && !deps_exist(plan.steps@),
            r matches Err(ValidationError::InvalidResource { .. })
                ==> unique_step_ids(plan.steps@) && deps_exist(plan.steps@)
                    && !timeouts_positive(plan.steps@),
            !(r matches Err(ValidationError::DagError(_))),
    {
        let n = plan.steps.len();
        let mut i: usize = 0;
        while i < n
            invariant
                n == plan.steps@.len(),
                i <= n,
                forall|a: int, b: int| 0 <= a < b < i
                    ==> (#[trigger] plan.steps@[a]).id@ != (#[trigger] plan.steps@[b]).id@,
            decreases n - i,
        {
            let mut j: usize = 0;
            while j < i
                invariant
                    n == plan.steps@.len(),
                    i < n,
                    j <= i,
                    forall|b: int| 0 <= b < j
                        ==> (#[trigger] plan.steps@[b]).id@ != plan.steps@[i as int].id@,
                decreases i - j,
            {
                if str_eq(plan.steps[j].id.as_str(), plan.steps[i].id.as_str()) {
                    proof {
                        assert(!unique_step_ids(plan.steps@));
                    }
                    return Err(ValidationError::DuplicateStep(plan.steps[i].id.clone()));
                }
                j += 1;
            }
            i += 1;
        }
        proof {
            assert(unique_step_ids(plan.steps@));
        }
        let mut s: usize = 0;
        while s < n
            invariant
                n == plan.steps@.len(),
                s <= n,
                unique_step_ids(plan.steps@),
                forall|i: int, d: int| 0 <= i < s
                    && 0 <= d < (#[trigger] plan.steps@[i]).dependencies@.len()
                    ==> exists|j: int| 0 <= j < n
                        && (#[trigger] plan.steps@[i].dependencies@[d])@
                            == (#[trigger] plan.steps@[j]).id@,
            decreases n - s,
        {
            let nd = plan.steps[s].dependencies.len();
            let mut d: usize = 0;
            while d < nd
                invariant
                    n == plan.steps@.len(),
                    s < n,
                    unique_step_ids(plan.steps@),
                    nd == plan.steps@[s as int].dependencies@.len(),
                    d <= nd,
                    forall|dd: int| 0 <= dd < d
                        ==> exists|j: int| 0 <= j < n
                            && (#[trigger] plan.steps@[s as int].dependencies@[dd])@
                                == (#[trigger] plan.steps@[j]).id@,
                decreases nd - d,
            {
                let mut found = false;
                let mut j: usize = 0;
                while j < n
                    invariant
                        n == plan.steps@.len(),
                        s < n,
                        unique_step_ids(plan.steps@),
                        nd == plan.steps@[s as int].dependencies@.len(),
                        d < nd,
                        j <= n,
                        found ==> exists|jj: int| 0 <= jj < n
                            && plan.steps@[s as int].dependencies@[d as int]@
                                == (#[trigger] plan.steps@[jj]).id@,
                        !found ==> forall|jj: int| 0 <= jj < j
                            ==> plan.steps@[s as int].dependencies@[d as int]@
                                != (#[trigger] plan.steps@[jj]).id@,
                    decreases n - j,
                {
                    if str_eq(plan.steps[s].dependencies[d].as_str(), plan.steps[j].id.as_str()) {
                        found = true;
                    }
                    j += 1;
                }
                if !found {
                    proof {
                        assert(!deps_exist(plan.steps@));
                    }
                    return Err(ValidationError::DependencyNotFound {
                        step: plan.steps[s].id.clone(),
                        dependency: plan.steps[s].dependencies[d].clone(),
                    });
                }
                d += 1;
            }
            s += 1;
        }
        proof {
            assert(deps_exist(plan.steps@));
        }
        let mut t: usize = 0;
        while t < n
            invariant
                n == plan.steps@.len(),
                t <= n,
                unique_step_ids(plan.steps@),
                deps_exist(plan.steps@),
                forall|i: int| 0 <= i < t ==> (#[trigger] plan.steps@[i]).resources.timeout_ms > 0,
            decreases n - t,
        {
            if plan.steps[t].resources.timeout_ms == 0 {
                proof {
                    assert(!timeouts_positive(plan.steps@));
                }
                return Err(ValidationError::InvalidResource {
                    step: plan.steps[t].id.clone(),
                    resource: String::from_str("timeout_ms"),
                    reason: String::from_str("must be positive"),
                });
            }
            t += 1;
        }
        Ok(())
    }

    /// Checks a compiled DAG.
    pub fn validate_dag(dag: &crate::dag::Dag) -> (r: Result<(), ValidationError>)
        requires
            dag.wf(),
    {
        match dag.validate() {
            Ok(()) => Ok(()),
            Err(_) => Err(ValidationError::DagError(String::from_str(
                "the graph is not acyclic"))),
        }
    }
}


/// Plan compilation errors.
#[derive(Clone, Debug, PartialEq, Eq)]
pub enum CompileError {
    /// A step is malformed.
    InvalidStep {
        /// The step id.
        id: String,
        /// Why it is invalid.
        reason: String,
    },
    /// The dependencies close a cycle.
    CircularDependency {
        /// The ids on the cycle, as far as known.
        path: Vec<String>,
    },
    /// A dependency names a missing step.
    MissingDependency {
        /// The step whose dependency is missing.
        step: String,
        /// The missing dependency.
        dependency: String,
    },
    /// The DAG refused the structure.
    Dag(String),
}

/// Compiles plans into DAGs.
pub struct PlanCompiler;

impl PlanCompiler {
    /// Compiles a plan: one DAG node per step in order, one edge per
    /// dependency from the dependency to the dependent, and a final
    /// acyclicity check. The compiled DAG is well formed.
    pub fn compile(plan: Plan) -> (r: Result<crate::dag::Dag, CompileError>)
        ensures
            r matches Ok(d) ==> d.wf()
                && d.spec_nodes().len() == plan.steps@.len()
                && (forall|i: int| 0 <= i < plan.steps@.len()
                    ==> (#[trigger] d.spec_nodes()[i]).id@ == plan.steps@[i].id@
                        && d.spec_nodes()[i].capabilities
                            == plan.steps@[i].capabilities
                        && d.spec_nodes()[i].resources == plan.steps@[i].resources
                        && d.spec_nodes()[i].failure_policy
                            == plan.steps@[i].failure_policy
                        && d.spec_nodes()[i].retry_policy
                            == plan.steps@[i].retry_policy
                        && d.spec_nodes()[i].timeout_policy
                            == plan.steps@[i].timeout_policy),
            r matches Err(CompileError::InvalidStep { .. })
                ==> !unique_step_ids(plan.steps@),
            r matches Err(CompileError::MissingDependency { .. })
                ==> unique_step_ids(plan.steps@) && !deps_exist(plan.steps@),
            r matches Err(CompileError::CircularDependency { .. })
                ==> unique_step_ids(plan.steps@),
            !(r matches Err(CompileError::Dag(_))),
    {
        let ghost steps_view = plan.steps@;
        let mut dag = crate::dag::Dag::new(plan.name.as_str());
        let mut deps: Vec<(String, Vec<String>)> = Vec::new();
        let mut src = plan.steps;
        let n = src.len();
        let mut k: usize = 0;
        while k < n
            invariant
                n == steps_view.len(),
                steps_view == plan.steps@,
                k <= n,
                src@ == steps_view.skip(k as int),
                dag.wf(),
                dag.spec_nodes().len() == k,
                forall|i: int| 0 <= i < k
                    ==> (#[trigger] dag.spec_nodes()[i]).id@ == steps_view[i].id@
                        && dag.spec_nodes()[i].capabilities
                            == steps_view[i].capabilities
                        && dag.spec_nodes()[i].resources == steps_view[i].resources
                        && dag.spec_nodes()[i].failure_policy
                            == steps_view[i].failure_policy
                        && dag.spec_nodes()[i].retry_policy
                            == steps_view[i].retry_policy
                        && dag.spec_nodes()[i].timeout_policy
                            == steps_view[i].timeout_policy,
                deps@.len() == k,
                forall|t: int| 0 <= t < k
                    ==> (#[trigger] deps@[t]).0 == steps_view[t].id
                        && deps@[t].1 == steps_view[t].dependencies,
            decreases n - k,
        {
            let step = src.remove(0);
            proof {
                assert(step == steps_view[k as int]);
                assert(src@ =~= steps_view.skip(k + 1));
            }
            let PlanStep { id, step_type, dependencies, capabilities, resources,
                failure_policy, retry_policy, timeout_policy } = step;
            let node_type = step_to_node_type(step_type);
            let node = crate::dag::DagNode {
                id: id.clone(),
                node_type,
                capabilities,
                resources,
                failure_policy,
                retry_policy,
                timeout_policy,
                metadata: StrMap::new(),
            };
            let ghost gnode = node;
            match dag.add_node(node) {
                Ok(()) => {},
                Err(crate::dag::DagError::DuplicateNode(d)) => {
                    proof {
                        let w = choose|w: int| 0 <= w < dag.spec_nodes().len()
                            && (#[trigger] dag.spec_nodes()[w]).id@ == gnode.id@;
                        assert(steps_view[w].id@ == steps_view[k as int].id@);
                        assert(!unique_step_ids(steps_view));
                    }
                    return Err(CompileError::InvalidStep {
                        id: d,
                        reason: String::from_str("duplicate step id"),
                    });
                },
                Err(_) => {
                    proof {
                        assert(false);
                    }
                    return Err(CompileError::Dag(String::from_str("node refused")));
                },
            }
            deps.push((id, dependencies));
            k += 1;
        }
        proof {
            assert forall|a: int, b: int| 0 <= a < b < steps_view.len()
                implies (#[trigger] steps_view[a]).id@
                    != (#[trigger] steps_view[b]).id@ by {
                assert(dag.spec_nodes()[a].id@ == steps_view[a].id@);
                assert(dag.spec_nodes()[b].id@ == steps_view[b].id@);
            }
            assert(unique_step_ids(steps_view));
        }
        let nd = deps.len();
        let mut i: usize = 0;
        while i < nd
            invariant
                nd == deps@.len(),
                nd == steps_view.len(),
                steps_view == plan.steps@,
                i <= nd,
                dag.wf(),
                unique_step_ids(steps_view),
                dag.spec_nodes().len() == steps_view.len(),
                forall|t: int| 0 <= t < steps_view.len()
                    ==> (#[trigger] dag.spec_nodes()[t]).id@ == steps_view[t].id@
                        && dag.spec_nodes()[t].capabilities
                            == steps_view[t].capabilities
                        && dag.spec_nodes()[t].resources == steps_view[t].resources
                        && dag.spec_nodes()[t].failure_policy
                            == steps_view[t].failure_policy
                        && dag.spec_nodes()[t].retry_policy
                            == steps_view[t].retry_policy
                        && dag.spec_nodes()[t].timeout_policy
                            == steps_view[t].timeout_policy,
                forall|t: int| 0 <= t < steps_view.len()
                    ==> (#[trigger] deps@[t]).0 == steps_view[t].id
                        && deps@[t].1 == steps_view[t].dependencies,
            decreases nd - i,
        {
            let m = deps[i].1.len();
            let mut d: usize = 0;
            while d < m
                invariant
                    nd == deps@.len(),
                    nd == steps_view.len(),
                    steps_view == plan.steps@,
                    i < nd,
                    m == deps@[i as int].1@.len(),
                    d <= m,
                    dag.wf(),
                    unique_step_ids(steps_view),
                    dag.spec_nodes().len() == steps_view.len(),
                    forall|t: int| 0 <= t < steps_view.len()
                        ==> (#[trigger] dag.spec_nodes()[t]).id@ == steps_view[t].id@
                            && dag.spec_nodes()[t].capabilities
                                == steps_view[t].capabilities
                            && dag.spec_nodes()[t].resources
                                == steps_view[t].resources
                            && dag.spec_nodes()[t].failure_policy
                                == steps_view[t].failure_policy
                            && dag.spec_nodes()[t].retry_policy
                                == steps_view[t].retry_policy
                            && dag.spec_nodes()[t].timeout_policy
                                == steps_view[t].timeout_policy,
                    forall|t: int| 0 <= t < steps_view.len()
                        ==> (#[trigger] deps@[t]).0 == steps_view[t].id
                            && deps@[t].1 == steps_view[t].dependencies,
                decreases m - d,
            {
                let from = deps[i].1[d].clone();
                let to = deps[i].0.clone();
                let ghost gfrom = from@;
                proof {
                    assert(gfrom == steps_view[i as int].dependencies@[d as int]@);
                    assert(to@ == steps_view[i as int].id@);
                }
                match dag.add_edge(from, to) {
                    Ok(()) => {},
                    Err(crate::dag::DagError::NodeNotFound(nm)) => {
                        proof {
                            assert(dag.spec_nodes()[i as int].id@
                                == steps_view[i as int].id@);
                            assert(node_named(dag.spec_nodes(),
                                steps_view[i as int].id@));
                            assert(!node_named(dag.spec_nodes(), gfrom));
                            assert forall|j: int| 0 <= j < steps_view.len()
                                implies (#[trigger] steps_view[j]).id@ != gfrom by {
                                assert(dag.spec_nodes()[j].id@ == steps_view[j].id@);
                            }
                            assert(!deps_exist(steps_view)) by {
                                if deps_exist(steps_view) {
                                    assert(0 <= i < steps_view.len()
                                        && 0 <= d
                                            < steps_view[i as int].dependencies@.len());
                                    assert(exists|j: int| 0 <= j < steps_view.len()
                                        && (#[trigger] steps_view[i as int]
                                            .dependencies@[d as int])@
                                            == (#[trigger] steps_view[j]).id@);
                                    let j = choose|j: int| 0 <= j < steps_view.len()
                                        && (#[trigger] steps_view[i as int]
                                            .dependencies@[d as int])@
                                            == (#[trigger] steps_view[j]).id@;
                                    assert(steps_view[j].id@ == gfrom);
                                    assert(false);
                                }
                            }
                        }
                        return Err(CompileError::MissingDependency {
                            step: deps[i].0.clone(),
                            dependency: nm,
                        });
                    },
                    Err(crate::dag::DagError::CycleDetected { from: f, to: t }) => {
                        let mut path: Vec<String> = Vec::new();
                        path.push(f);
                        path.push(t);
                        return Err(CompileError::CircularDependency { path });
                    },
                    Err(_) => {
                        proof {
                            assert(false);
                        }
                        return Err(CompileError::Dag(String::from_str("edge refused")));
                    },
                }
                d += 1;
            }
            i += 1;
        }
        match dag.validate() {
            Ok(()) => Ok(dag),
            Err(_) => {
                proof {
                    assert(false);
                }
                Err(CompileError::CircularDependency { path: Vec::new() })
            },
        }
    }
}

/// The DAG node a step compiles to: sequential and parallel groups become
/// scheduler markers, everything else maps directly.
pub fn step_to_node_type(step_type: StepType) -> (r: crate::dag::DagNodeType)
    ensures
        step_type matches StepType::Tool { name, version, .. }
            ==> (r matches crate::dag::DagNodeType::Tool { name: n2, version: v2 }
                && n2 == name && v2 == version),
        step_type matches StepType::Observation { source, .. }
            ==> (r matches crate::dag::DagNodeType::Observation { source: s2 }
                && s2 == source),
        step_type matches StepType::Decision { condition, .. }
            ==> (r matches crate::dag::DagNodeType::Decision { condition: c2 }
                && c2 == condition),
        step_type matches StepType::Sequential { .. }
            ==> (r matches crate::dag::DagNodeType::Custom { type_label, .. }
                && type_label@ == "sequential"@),
        step_type matches StepType::Parallel { .. }
            ==> (r matches crate::dag::DagNodeType::Custom { type_label, .. }
                && type_label@ == "parallel"@),
        step_type matches StepType::Custom { type_label, config }
            ==> (r matches crate::dag::DagNodeType::Custom { type_label: t2, config: c2 }
                && t2 == type_label && c2 == config),
{
    match step_type {
        StepType::Tool { name, version, input: _ } => crate::dag::DagNodeType::Tool {
            name, version,
        },
        StepType::Observation { source, filter: _ } => crate::dag::DagNodeType::Observation {
            source,
        },
        StepType::Decision { condition, then_step: _, else_step: _ } =>
            crate::dag::DagNodeType::Decision { condition },
        StepType::Sequential { steps } => crate::dag::DagNodeType::Custom {
            type_label: String::from_str("sequential"),
            config: group_config(steps),
        },
        StepType::Parallel { steps } => crate::dag::DagNodeType::Custom {
            type_label: String::from_str("parallel"),
            config: group_config(steps),
        },
        StepType::Custom { type_label, config } => crate::dag::DagNodeType::Custom {
            type_label, config,
        },
    }
}

/// The marker configuration of a step group: the inner step ids as a
/// canonical list of text values.
fn group_config(steps: Vec<String>) -> (r: CanonValue)
    ensures
        r is List,
{
    let n = steps.len();
    let mut items: Vec<CanonValue> = Vec::new();
    let mut i: usize = 0;
    while i < n
        invariant
            n == steps@.len(),
            i <= n,
        decreases n - i,
    {
        items.push(CanonValue::Text(vstd::slice::slice_to_vec(
            steps[i].as_str().as_bytes())));
        i += 1;
    }
    CanonValue::List(items)
}

} // verus!

//! Tools and their runtime: declared identities, capability gating before
//! every dispatch, normalised responses, and a registry that refuses
//! duplicates.

use vstd::prelude::*;
use vstd::string::StrSliceExecFns;
use vstd::string::StringExecFns;
use crate::canon::{CanonValue, cv_view, spec_encode};
use crate::capability::{Capability, CapabilitySet};
use crate::errors::ToolError;
use crate::hashes::blake3_of;
use crate::kv::{StrMap, has_key, value_of};

verus! {

/// A tool's identity: name and version.
#[derive(Debug)]
pub struct ToolId {
    /// The tool name.
    pub name: String,
    /// The tool version.
    pub version: String,
}

impl ToolId {
    /// An id from name and version.
    pub fn new(name: &str, version: &str) -> (r: Self)
        ensures
            r.name@ == name@,
            r.version@ == version@,
    {
        ToolId { name: String::from_str(name), version: String::from_str(version) }
    }

    /// The id as `name@version` text.
    pub fn as_text(&self) -> (r: String)
        ensures
            r@ == self.name@ + "@"@ + self.version@,
    {
        let r = self.name.clone().concat("@").concat(self.version.as_str());
        proof {
            assert(r@ =~= self.name@ + "@"@ + self.version@);
        }
        r
    }
}

impl Clone for ToolId {
    /// A clone carries the same name and version.
    fn clone(&self) -> (r: Self)
        ensures
            r.name@ == self.name@,
            r.version@ == self.version@,
    {
        ToolId { name: self.name.clone(), version: self.version.clone() }
    }
}

/// Whether a tool touches the outside world.
#[derive(Clone, Copy, Debug, PartialEq, Eq, Structural)]
pub enum SideEffect {
    /// A pure function of its input.
    Pure,
    /// Affects or reads the outside world.
    Impure,
}

/// How repeatable a tool is.
#[derive(Clone, Copy, Debug, PartialEq, Eq, Structural)]
pub enum Determinism {
    /// The same input always gives the same output.
    Deterministic,
    /// Varies within declared bounds.
    BoundedNonDeterminism,
    /// Varies freely.
    NonDeterministic,
}

/// Resource bounds of a tool.
#[derive(Clone, Copy, Debug, PartialEq, Eq, Structural)]
pub struct ResourceBounds {
    /// The time ceiling in milliseconds.
    pub timeout_ms: u64,
    /// The memory ceiling in bytes, if bounded.
    pub max_memory_bytes: Option<u64>,
    /// The instruction budget, if bounded.
    pub max_fuel: Option<u64>,
}

impl ResourceBounds {
    /// Bounds with a timeout and nothing else.
    pub fn with_timeout(timeout_ms: u64) -> (r: Self)
        ensures
            r.timeout_ms == timeout_ms,
            r.max_memory_bytes is None,
            r.max_fuel is None,
    {
        ResourceBounds { timeout_ms, max_memory_bytes: None, max_fuel: None }
    }
}

impl Default for ResourceBounds {
    /// The default bounds: a thirty-second timeout.
    fn default() -> (r: Self)
        ensures
            r.timeout_ms == 30000,
            r.max_memory_bytes is None,
            r.max_fuel is None,
    {
        ResourceBounds { timeout_ms: 30000, max_memory_bytes: None, max_fuel: None }
    }
}

/// The context a tool runs in: injected time, run id and seed.
#[derive(Clone, Copy, Debug, PartialEq, Eq, Structural)]
pub struct ExecutionContext {
    /// The logical time of the call.
    pub logical_time: u64,
    /// The run id.
    pub run_id: u64,
    /// The injected seed, if any.
    pub random_seed: Option<u64>,
}

impl ExecutionContext {
    /// A context without a seed.
    pub fn new(logical_time: u64, run_id: u64) -> (r: Self)
        ensures
            r.logical_time == logical_time,
            r.run_id == run_id,
            r.random_seed is None,
    {
        ExecutionContext { logical_time, run_id, random_seed: None }
    }

    /// A context with a seed.
    pub fn with_seed(logical_time: u64, run_id: u64, random_seed: u64) -> (r: Self)
        ensures
            r.logical_time == logical_time,
            r.run_id == run_id,
            r.random_seed == Some(random_seed),
    {
        ExecutionContext { logical_time, run_id, random_seed: Some(random_seed) }
    }
}

/// Request metadata recorded with every dispatch.
#[derive(Debug)]
pub struct ToolRequestMetadata {
    /// The tool called.
    pub tool_id: ToolId,
    /// When, logically.
    pub timestamp: u64,
    /// The hash of the request.
    pub request_hash: crate::hashes::Hash,
    /// The capabilities the call needs.
    pub required_capabilities: Vec<Capability>,
}

impl ToolRequestMetadata {
    /// Request metadata.
    pub fn new(tool_id: ToolId, timestamp: u64, request_hash: crate::hashes::Hash,
        required_capabilities: Vec<Capability>) -> (r: Self)
        ensures
            r.tool_id == tool_id,
            r.timestamp == timestamp,
            r.request_hash == request_hash,
            r.required_capabilities == required_capabilities,
    {
        ToolRequestMetadata { tool_id, timestamp, request_hash, required_capabilities }
    }
}

/// Where a response came from.
#[derive(Clone, Copy, Debug, PartialEq, Eq, Structural)]
pub enum ResponseSource {
    /// A live tool run.
    Tool,
    /// A cache.
    Cache,
    /// A mock, in tests.
    Mock,
    /// An error path.
    Error,
}

/// Response metadata.
#[derive(Debug)]
pub struct ToolResponseMetadata {
    /// Where the response came from.
    pub source: ResponseSource,
    /// Whether the data was normalised.
    pub normalized: bool,
    /// How long the call took, in milliseconds.
    pub duration_ms: u64,
    /// Further annotations.
    pub extra: Vec<(String, String)>,
}

impl ToolResponseMetadata {
    /// Metadata of a live normalised response.
    pub fn fresh() -> (r: Self)
        ensures
            r.source is Tool,
            r.normalized,
            r.duration_ms == 0,
    {
        ToolResponseMetadata {
            source: ResponseSource::Tool,
            normalized: true,
            duration_ms: 0,
            extra: Vec::new(),
        }
    }

    /// Metadata of a cached response.
    pub fn cached(duration_ms: u64) -> (r: Self)
        ensures
            r.source is Cache,
            r.normalized,
            r.duration_ms == duration_ms,
    {
        ToolResponseMetadata {
            source: ResponseSource::Cache,
            normalized: true,
            duration_ms,
            extra: Vec::new(),
        }
    }
}

/// A normalised tool response: canonical data and its hash. Equal data
/// gives equal hashes, which is the unit of replay equality.
#[derive(Debug)]
pub struct ToolResponse {
    /// The response data, in canonical form.
    pub data: CanonValue,
    /// The hash of the canonical data.
    pub response_hash: crate::hashes::Hash,
    /// Metadata about the response.
    pub metadata: ToolResponseMetadata,
}

impl ToolResponse {
    /// A normalised response of live data.
    pub fn new(data: CanonValue) -> (r: Self)
        ensures
            r.data == data,
            r.response_hash@ == blake3_of(spec_encode(cv_view(data))),
            r.metadata.source is Tool,
    {
        let response_hash = crate::hashes::Hash::from_canonical(&data);
        ToolResponse { data, response_hash, metadata: ToolResponseMetadata::fresh() }
    }

    /// A normalised response with explicit metadata.
    pub fn with_metadata(data: CanonValue, metadata: ToolResponseMetadata) -> (r: Self)
        ensures
            r.data == data,
            r.response_hash@ == blake3_of(spec_encode(cv_view(data))),
            r.metadata == metadata,
    {
        let response_hash = crate::hashes::Hash::from_canonical(&data);
        ToolResponse { data, response_hash, metadata }
    }
}

/// The tool interface: a declared identity, capability needs, determinism
/// and bounds, and a pure function from input bytes to output bytes.
/// Implementations are injected by the run controller.
pub trait Tool {
    /// The tool's identity.
    fn id(&self) -> &ToolId;

    /// The capabilities every call needs.
    fn required_capabilities(&self) -> &Vec<Capability>;

    /// Whether the tool has side effects.
    fn side_effects(&self) -> SideEffect;

    /// How repeatable the tool is.
    fn determinism(&self) -> Determinism;

    /// The tool's resource bounds.
    fn resource_bounds(&self) -> &ResourceBounds;

    /// Runs the tool on serialized input.
    fn execute(&self, input: &[u8], context: &ExecutionContext)
        -> Result<Vec<u8>, ToolError>;

    /// The input schema, as text.
    fn input_schema(&self) -> &str;

    /// The output schema, as text.
    fn output_schema(&self) -> &str;
}

/// The echo tool: returns its input unchanged. Pure and deterministic.
#[derive(Debug)]
pub struct EchoTool {
    id: ToolId,
    caps: Vec<Capability>,
    bounds: ResourceBounds,
}

impl EchoTool {
    /// An echo tool at version `1.0.0`.
    pub fn new() -> (r: Self)
        ensures
            r.spec_id_name() == "echo"@,
    {
        EchoTool {
            id: ToolId::new("echo", "1.0.0"),
            caps: Vec::new(),
            bounds: ResourceBounds::with_timeout(1000),
        }
    }

    /// The tool name.
    pub closed spec fn spec_id_name(&self) -> Seq<char> {
        self.id.name@
    }
}

impl Tool for EchoTool {
    fn id(&self) -> &ToolId {
        &self.id
    }

    fn required_capabilities(&self) -> &Vec<Capability> {
        &self.caps
    }

    fn side_effects(&self) -> SideEffect {
        SideEffect::Pure
    }

    fn determinism(&self) -> Determinism {
        Determinism::Deterministic
    }

    fn resource_bounds(&self) -> &ResourceBounds {
        &self.bounds
    }

    /// Echo returns its input unchanged.
    fn execute(&self, input: &[u8], context: &ExecutionContext)
        -> (r: Result<Vec<u8>, ToolError>)
        ensures
            r matches Ok(out) && out@ == input@,
    {
        let _ = context;
        Ok(vstd::slice::slice_to_vec(input))
    }

    fn input_schema(&self) -> &str {
        "{\"type\": \"string\"}"
    }

    fn output_schema(&self) -> &str {
        "{\"type\": \"string\"}"
    }
}

/// The hash tool: returns the hex digest of its input. Pure and
/// deterministic.
#[derive(Debug)]
pub struct HashTool {
    id: ToolId,
    caps: Vec<Capability>,
    bounds: ResourceBounds,
}

impl HashTool {
    /// A hash tool at version `1.0.0`.
    pub fn new() -> (r: Self)
        ensures
            r.spec_id_name() == "hash"@,
    {
        HashTool {
            id: ToolId::new("hash", "1.0.0"),
            caps: Vec::new(),
            bounds: ResourceBounds::with_timeout(1000),
        }
    }

    /// The tool name.
    pub closed spec fn spec_id_name(&self) -> Seq<char> {
        self.id.name@
    }
}

impl Tool for HashTool {
    fn id(&self) -> &ToolId {
        &self.id
    }

    fn required_capabilities(&self) -> &Vec<Capability> {
        &self.caps
    }

    fn side_effects(&self) -> SideEffect {
        SideEffect::Pure
    }

    fn determinism(&self) -> Determinism {
        Determinism::Deterministic
    }

    fn resource_bounds(&self) -> &ResourceBounds {
        &self.bounds
    }

    /// The hash tool answers with the 64 hex characters of the digest of
    /// its input, as bytes.
    fn execute(&self, input: &[u8], context: &ExecutionContext)
        -> (r: Result<Vec<u8>, ToolError>)
        ensures
            r matches Ok(out)
                && out@ == vstd::utf8::encode_utf8(crate::hashes::hex_of(blake3_of(input@))),
    {
        let _ = context;
        let h = crate::hashes::Hash::from_bytes(input);
        let hx = h.to_hex();
        Ok(vstd::slice::slice_to_vec(hx.as_str().as_bytes()))
    }

    fn input_schema(&self) -> &str {
        "{\"type\": \"string\"}"
    }

    fn output_schema(&self) -> &str {
        "{\"type\": \"string\"}"
    }
}

/// Registered tool metadata, keyed by `name@version`. The registry holds
/// descriptors, not tool implementations: dispatching a call — looking a
/// tool up, checking its capabilities and normalising its response — is
/// composed by the caller from `get`, `CapabilityChecker` and
/// `ToolResponse`.
#[derive(Debug)]
pub struct ToolRegistry {
    tools: StrMap<ToolRequestMetadata>,
}

impl ToolRegistry {
    /// The registered descriptors, keyed by id text.
    pub closed spec fn spec_tools(&self) -> Seq<(Seq<char>, ToolRequestMetadata)> {
        self.tools@
    }

    /// The registry is well formed.
    pub closed spec fn wf(&self) -> bool {
        self.tools.wf()
    }

    /// An empty registry.
    pub fn new() -> (r: Self)
        ensures
            r.wf(),
            r.spec_tools().len() == 0,
    {
        ToolRegistry { tools: StrMap::new() }
    }

    /// Registers a tool descriptor; refuses an id already present.
    pub fn register(&mut self, descriptor: ToolRequestMetadata)
        -> (r: Result<(), ToolError>)
        requires
            old(self).wf(),
        ensures
            final(self).wf(),
            r is Ok ==> !has_key(old(self).spec_tools(),
                descriptor.tool_id.name@ + "@"@ + descriptor.tool_id.version@)
                && has_key(final(self).spec_tools(),
                    descriptor.tool_id.name@ + "@"@ + descriptor.tool_id.version@)
                && value_of(final(self).spec_tools(),
                    descriptor.tool_id.name@ + "@"@ + descriptor.tool_id.version@)
                    == descriptor,
            r is Err ==> has_key(old(self).spec_tools(),
                descriptor.tool_id.name@ + "@"@ + descriptor.tool_id.version@)
                && *final(self) == *old(self),
    {
        let key = descriptor.tool_id.as_text();
        if self.tools.contains_key(key.as_str()) {
            return Err(ToolError::NotFound(key));
        }
        let ghost gk = key@;
        let ghost gd = descriptor;
        self.tools.insert(key, descriptor);
        proof {
            assert(self.tools.spec_map()[gk] == gd);
            assert(has_key(self.tools@, gk));
            assert(value_of(self.tools@, gk) == gd);
        }
        Ok(())
    }

    /// The descriptor under an id, if registered.
    pub fn get(&self, id: &ToolId) -> (r: Option<&ToolRequestMetadata>)
        ensures
            match r {
                Some(d) => has_key(self.spec_tools(), id.name@ + "@"@ + id.version@)
                    && *d == value_of(self.spec_tools(), id.name@ + "@"@ + id.version@),
                None => !has_key(self.spec_tools(), id.name@ + "@"@ + id.version@),
            },
    {
        let key = id.as_text();
        self.tools.get(key.as_str())
    }

    /// The registered id texts, in sorted order.
    pub fn list(&self) -> (r: Vec<String>)
        ensures
            r@.len() == self.spec_tools().len(),
    {
        self.tools.keys()
    }
}

/// The answer of a capability check.
#[derive(Debug)]
pub enum CheckResult {
    /// The capability is granted.
    Granted,
    /// It is not.
    Denied {
        /// The capability that was refused.
        capability: Capability,
        /// Why it was refused.
        reason: String,
    },
}

impl CheckResult {
    /// Whether the check granted.
    pub fn is_granted(&self) -> (b: bool)
        ensures
            b == (*self is Granted),
    {
        matches!(self, CheckResult::Granted)
    }

    /// Whether the check denied.
    pub fn is_denied(&self) -> (b: bool)
        ensures
            b == (*self is Denied),
    {
        matches!(self, CheckResult::Denied { .. })
    }

    /// The denial reason, if denied.
    pub fn denial_reason(&self) -> (r: Option<&str>)
        ensures
            (*self is Denied) == (r is Some),
    {
        match self {
            CheckResult::Denied { reason, .. } => Some(reason.as_str()),
            CheckResult::Granted => None,
        }
    }
}

/// Checks required capabilities against a fixed granted set.
#[derive(Debug)]
pub struct CapabilityChecker {
    granted: CapabilitySet,
}

impl CapabilityChecker {
    /// The granted capability names.
    pub closed spec fn spec_granted(&self) -> Set<Seq<char>> {
        self.granted@
    }

    /// The checker is well formed.
    pub closed spec fn wf(&self) -> bool {
        self.granted.wf()
    }

    /// A checker over a granted set.
    pub fn new(granted: CapabilitySet) -> (r: Self)
        ensures
            r.spec_granted() == granted@,
            granted.wf() ==> r.wf(),
    {
        CapabilityChecker { granted }
    }

    /// Grants exactly the capabilities in the set.
    pub fn check(&self, capability: &Capability) -> (r: CheckResult)
        requires
            self.wf(),
        ensures
            (r is Granted) == self.spec_granted().contains(capability@),
    {
        if self.granted.has(capability) {
            CheckResult::Granted
        } else {
            CheckResult::Denied {
                capability: capability.clone(),
                reason: String::from_str("the capability is not granted"),
            }
        }
    }

    /// Grants exactly when every required capability is in the set.
    pub fn check_all(&self, required: &[Capability]) -> (r: CheckResult)
        requires
            self.wf(),
        ensures
            (r is Granted) == spec_all_granted(self.spec_granted(),
                Seq::new(required@.len(), |i: int| required@[i]@)),
    {
        let n = required.len();
        let ghost names = Seq::new(required@.len(), |i: int| required@[i]@);
        let mut i: usize = 0;
        while i < n
            invariant
                self.wf(),
                n == required@.len(),
                names == Seq::new(required@.len(), |i: int| required@[i]@),
                i <= n,
                forall|j: int| 0 <= j < i ==> self.spec_granted().contains(#[trigger] names[j]),
            decreases n - i,
        {
            if !self.granted.has(&required[i]) {
                proof {
                    assert(names[i as int] == required@[i as int]@);
                    assert(!spec_all_granted(self.spec_granted(), names));
                }
                return CheckResult::Denied {
                    capability: required[i].clone(),
                    reason: String::from_str("a required capability is not granted"),
                };
            }
            i += 1;
        }
        CheckResult::Granted
    }

    /// The granted set.
    pub fn granted(&self) -> (r: &CapabilitySet)
        ensures
            r@ == self.spec_granted(),
    {
        &self.granted
    }
}

/// Whether every required capability name is granted.
pub open spec fn spec_all_granted(granted: Set<Seq<char>>, required: Seq<Seq<char>>) -> bool {
    forall|i: int| 0 <= i < required.len() ==> granted.contains(#[trigger] required[i])
}

/// Removing a capability never widens what the runtime will dispatch: a
/// check that passes under the smaller granted set passes under the larger
/// one, so shrinking the set can only shrink the set of dispatchable
/// tools.
pub proof fn lemma_capability_monotonic(small: Set<Seq<char>>, big: Set<Seq<char>>,
    required: Seq<Seq<char>>)
    requires
        small.subset_of(big),
        spec_all_granted(small, required),
    ensures
        spec_all_granted(big, required),
{
}

/// The state of one DAG execution.
#[derive(Debug)]
pub struct ExecState {
    /// The nodes completed, in completion order.
    pub completed: Vec<String>,
    /// The nodes failed, in failure order.
    pub failed: Vec<String>,
    /// The node under execution, if any.
    pub current: Option<String>,
    /// The results per node, keyed by node id.
    pub results: StrMap<NodeResult>,
}

impl ExecState {
    /// A fresh execution state.
    pub fn new() -> (r: Self)
        ensures
            r.completed@.len() == 0,
            r.failed@.len() == 0,
            r.current is None,
            r.results@.len() == 0,
            r.results.wf(),
    {
        ExecState {
            completed: Vec::new(),
            failed: Vec::new(),
            current: None,
            results: StrMap::new(),
        }
    }

    /// Whether execution finished: something completed and nothing runs.
    pub fn is_complete(&self) -> (b: bool)
        ensures
            b == (self.completed@.len() > 0 && self.current is None),
    {
        self.completed.len() > 0 && self.current.is_none()
    }

    /// Whether any node failed.
    pub fn has_failed(&self) -> (b: bool)
        ensures
            b == (self.failed@.len() > 0),
    {
        self.failed.len() > 0
    }
}

/// How one node's execution ended.
#[derive(Debug)]
pub struct NodeResult {
    /// The node.
    pub node_id: String,
    /// Whether it succeeded.
    pub success: bool,
    /// Its output, as stable text, if it succeeded.
    pub output: Option<String>,
    /// The error message, if it failed.
    pub error: Option<String>,
    /// How long it ran, in milliseconds.
    pub duration_ms: u64,
}

impl NodeResult {
    /// A successful result.
    pub fn success(node_id: &str, output: &str, duration_ms: u64) -> (r: Self)
        ensures
            r.node_id@ == node_id@,
            r.success,
            r.output matches Some(o) && o@ == output@,
            r.error is None,
            r.duration_ms == duration_ms,
    {
        NodeResult {
            node_id: String::from_str(node_id),
            success: true,
            output: Some(String::from_str(output)),
            error: None,
            duration_ms,
        }
    }

    /// A failed result.
    pub fn failure(node_id: &str, error: &str, duration_ms: u64) -> (r: Self)
        ensures
            r.node_id@ == node_id@,
            !r.success,
            r.output is None,
            r.error matches Some(e) && e@ == error@,
            r.duration_ms == duration_ms,
    {
        NodeResult {
            node_id: String::from_str(node_id),
            success: false,
            output: None,
            error: Some(String::from_str(error)),
            duration_ms,
        }
    }
}

/// Walks a DAG in topological order, gating each node on its capabilities.
/// The work a node stands for is performed by the run controller; the
/// executor decides order and admission.
#[derive(Debug)]
pub struct DagExecutor {
    capabilities: CapabilitySet,
    state: ExecState,
}

impl DagExecutor {
    /// The granted capability names.
    pub closed spec fn spec_capabilities(&self) -> Set<Seq<char>> {
        self.capabilities@
    }

    /// The granted set is well formed.
    pub closed spec fn wf_caps(&self) -> bool {
        self.capabilities.wf()
    }

    /// An executor over a granted capability set.
    pub fn new(capabilities: CapabilitySet) -> (r: Self)
        ensures
            r.spec_capabilities() == capabilities@,
            capabilities.wf() ==> r.wf_caps(),
    {
        DagExecutor { capabilities, state: ExecState::new() }
    }

    /// Admits the nodes of a DAG in topological order: a node whose
    /// capabilities are all granted is recorded as completed, any other
    /// as failed with a denial.
    pub fn execute(&mut self, dag: &crate::dag::Dag) -> (r: Result<(), crate::scheduler::ExecError>)
        requires
            dag.wf(),
            old(self).wf_caps(),
    {
        let order = match dag.topological_order() {
            Ok(o) => o,
            Err(_) => {
                return Err(crate::scheduler::ExecError::InvalidState(String::from_str(
                    "the graph is not acyclic")));
            },
        };
        let n = order.len();
        let mut i: usize = 0;
        while i < n
            invariant
                self.capabilities.wf(),
                n == order@.len(),
                i <= n,
            decreases n - i,
        {
            let allowed = match dag.node(order[i].as_str()) {
                Option::Some(node) => {
                    let m = node.capabilities.len();
                    let mut ok = true;
                    let mut c: usize = 0;
                    while c < m
                        invariant
                            self.capabilities.wf(),
                            m == node.capabilities@.len(),
                            c <= m,
                        decreases m - c,
                    {
                        let cap = Capability::new(node.capabilities[c].as_str());
                        if !self.capabilities.has(&cap) {
                            ok = false;
                        }
                        c += 1;
                    }
                    ok
                },
                Option::None => false,
            };
            if allowed {
                self.state.completed.push(order[i].clone());
            } else {
                self.state.failed.push(order[i].clone());
            }
            i += 1;
        }
        Ok(())
    }

    /// The execution state so far.
    pub fn state(&self) -> (r: &ExecState)
    {
        &self.state
    }

    /// The granted capabilities.
    pub fn capabilities(&self) -> (r: &CapabilitySet)
        ensures
            r@ == self.spec_capabilities(),
    {
        &self.capabilities
    }
}

} // verus!

//! Agent state: a versioned container of named domains whose hash is
//! recomputed on every mutation. Agents are pure state machines over it.

use vstd::prelude::*;
use vstd::string::StrSliceExecFns;
use vstd::utf8::encode_utf8;
use crate::canon::{CanonValue, CanonData, cv_view, cv_view_list, cv_view_entries, spec_encode,
    lemma_cv_view_list_push, lemma_cv_view_entries_push};
use crate::hashes::blake3_of;
use crate::kv::{StrMap, lemma_sorted_extensional};

verus! {

/// A typed state value.
#[derive(Clone, Debug, PartialEq, Eq)]
pub enum StateValue {
    /// A string.
    String(String),
    /// A boolean.
    Bool(bool),
    /// An unsigned integer.
    U64(u64),
    /// A signed integer.
    I64(i64),
    /// Raw bytes.
    Bytes(Vec<u8>),
    /// A hash reference.
    Hash(crate::hashes::Hash),
    /// Absence of a value.
    Null,
}

/// The canonical form of a state value.
pub open spec fn sv_canon(v: StateValue) -> CanonData {
    match v {
        StateValue::String(s) => CanonData::Text(encode_utf8(s@)),
        StateValue::Bool(b) => CanonData::Bool(b),
        StateValue::U64(n) => CanonData::U64(n),
        StateValue::I64(n) => CanonData::I64(n),
        StateValue::Bytes(b) => CanonData::Blob(b@),
        StateValue::Hash(h) => CanonData::Blob(h@),
        StateValue::Null => CanonData::Null,
    }
}

impl StateValue {
    /// The name of this value's type.
    pub fn type_label(&self) -> (r: &str)
        ensures
            r@ == sv_type_name(*self),
    {
        match self {
            StateValue::String(_) => "string",
            StateValue::Bool(_) => "bool",
            StateValue::U64(_) => "u64",
            StateValue::I64(_) => "i64",
            StateValue::Bytes(_) => "bytes",
            StateValue::Hash(_) => "hash",
            StateValue::Null => "none",
        }
    }

    /// This value in canonical form.
    pub fn to_canon(&self) -> (r: CanonValue)
        ensures
            cv_view(r) == sv_canon(*self),
    {
        match self {
            StateValue::String(s) => CanonValue::Text(vstd::slice::slice_to_vec(s.as_str().as_bytes())),
            StateValue::Bool(b) => CanonValue::Bool(*b),
            StateValue::U64(n) => CanonValue::U64(*n),
            StateValue::I64(n) => CanonValue::I64(*n),
            StateValue::Bytes(b) => CanonValue::Blob(copy_bytes(b)),
            StateValue::Hash(h) => CanonValue::Blob(vstd::slice::slice_to_vec(h.as_bytes())),
            StateValue::Null => CanonValue::Null,
        }
    }
}

/// The type name of a state value.
pub open spec fn sv_type_name(v: StateValue) -> Seq<char> {
    match v {
        StateValue::String(_) => "string"@,
        StateValue::Bool(_) => "bool"@,
        StateValue::U64(_) => "u64"@,
        StateValue::I64(_) => "i64"@,
        StateValue::Bytes(_) => "bytes"@,
        StateValue::Hash(_) => "hash"@,
        StateValue::Null => "none"@,
    }
}

/// A copy of a byte vector.
fn copy_bytes(b: &Vec<u8>) -> (r: Vec<u8>)
    ensures
        r@ == b@,
{
    let mut r: Vec<u8> = Vec::new();
    let n = b.len();
    let mut i: usize = 0;
    while i < n
        invariant
            n == b@.len(),
            i <= n,
            r@ == b@.take(i as int),
        decreases n - i,
    {
        r.push(b[i]);
        proof {
            assert(r@ =~= b@.take(i + 1));
        }
        i += 1;
    }
    proof {
        assert(b@.take(n as int) =~= b@);
    }
    r
}

/// Data stored under one state domain.
#[derive(Debug)]
pub enum StateData {
    /// A single value.
    Value(StateValue),
    /// A map of named values.
    Table(StrMap<StateValue>),
    /// A list of values.
    Vec(Vec<StateValue>),
}

/// The canonical form of domain data.
pub open spec fn sd_canon(d: StateData) -> CanonData {
    match d {
        StateData::Value(v) => sv_canon(v),
        StateData::Table(m) => CanonData::Object(
            Seq::new(m@.len(), |i: int| (encode_utf8(m@[i].0), sv_canon(m@[i].1)))),
        StateData::Vec(v) => CanonData::List(Seq::new(v@.len(), |i: int| sv_canon(v@[i]))),
    }
}

impl StateData {
    /// This data in canonical form.
    pub fn to_canon(&self) -> (r: CanonValue)
        ensures
            cv_view(r) == sd_canon(*self),
    {
        match self {
            StateData::Value(v) => v.to_canon(),
            StateData::Table(m) => {
                let n = m.len();
                let mut es: Vec<(Vec<u8>, CanonValue)> = Vec::new();
                let mut i: usize = 0;
                proof {
                    assert(cv_view_entries(es@) =~= sd_canon(*self)->Object_0.take(0));
                }
                while i < n
                    invariant
                        *self == StateData::Table(*m),
                        n == m@.len(),
                        i <= n,
                        cv_view_entries(es@) == sd_canon(*self)->Object_0.take(i as int),
                    decreases n - i,
                {
                    let (key, value) = m.entry_at(i);
                    let ghost old_es = es@;
                    let kb = vstd::slice::slice_to_vec(key.as_str().as_bytes());
                    let cv = value.to_canon();
                    es.push((kb, cv));
                    proof {
                        let x = es@[es@.len() - 1];
                        assert(es@ == old_es.push(x));
                        lemma_cv_view_entries_push(old_es, x);
                        assert(cv_view_entries(es@) =~= sd_canon(*self)->Object_0.take(i + 1));
                    }
                    i += 1;
                }
                proof {
                    assert(sd_canon(*self)->Object_0.take(n as int) =~= sd_canon(*self)->Object_0);
                }
                CanonValue::Object(es)
            },
            StateData::Vec(v) => {
                let n = v.len();
                let mut items: Vec<CanonValue> = Vec::new();
                let mut i: usize = 0;
                proof {
                    assert(cv_view_list(items@) =~= sd_canon(*self)->List_0.take(0));
                }
                while i < n
                    invariant
                        *self == StateData::Vec(*v),
                        n == v@.len(),
                        i <= n,
                        cv_view_list(items@) == sd_canon(*self)->List_0.take(i as int),
                    decreases n - i,
                {
                    let ghost old_items = items@;
                    let cv = v[i].to_canon();
                    items.push(cv);
                    proof {
                        let x = items@[items@.len() - 1];
                        assert(items@ == old_items.push(x));
                        lemma_cv_view_list_push(old_items, x);
                        assert(cv_view_list(items@) =~= sd_canon(*self)->List_0.take(i + 1));
                    }
                    i += 1;
                }
                proof {
                    assert(sd_canon(*self)->List_0.take(n as int) =~= sd_canon(*self)->List_0);
                }
                CanonValue::List(items)
            },
        }
    }
}

/// The canonical form of a whole state data map.
pub open spec fn state_canon(entries: Seq<(Seq<char>, StateData)>) -> CanonData {
    CanonData::Object(Seq::new(entries.len(), |i: int|
        (encode_utf8(entries[i].0), sd_canon(entries[i].1))))
}

/// The hash of a state data map's canonical bytes.
pub open spec fn spec_state_hash(entries: Seq<(Seq<char>, StateData)>) -> Seq<u8> {
    blake3_of(spec_encode(state_canon(entries)))
}

/// The agent state: versioned domains with a cached hash.
#[derive(Debug)]
pub struct AgentState {
    /// The version, incremented on every mutation.
    pub version: u64,
    /// The data, keyed by domain.
    pub data: StrMap<StateData>,
    /// The hash of the canonical data.
    pub state_hash: crate::hashes::Hash,
}

impl AgentState {
    /// The cached hash is the hash of the canonical data, and the domains
    /// are sorted.
    pub open spec fn wf(&self) -> bool {
        &&& self.data.wf()
        &&& self.state_hash@ == spec_state_hash(self.data@)
    }

    /// The empty state at version zero.
    pub fn initial() -> (r: Self)
        ensures
            r.wf(),
            r.version == 0,
            r.data@.len() == 0,
            r.data.spec_map() == Map::<Seq<char>, StateData>::empty(),
    {
        let data: StrMap<StateData> = StrMap::new();
        let state_hash = hash_of_data(&data);
        let r = AgentState { version: 0, data, state_hash };
        proof {
            assert(r.data.spec_map() =~= Map::<Seq<char>, StateData>::empty());
        }
        r
    }

    /// A fresh state recording its run id under the `system` domain.
    pub fn with_run_id(run_id: u64) -> (r: Self)
        ensures
            r.wf(),
            r.version == 1,
            r.data.spec_map() == Map::<Seq<char>, StateData>::empty()
                .insert("system"@, StateData::Value(StateValue::U64(run_id))),
    {
        let mut state = AgentState::initial();
        state.set("system", StateData::Value(StateValue::U64(run_id)));
        state
    }

    /// The data under a domain.
    pub fn get(&self, domain: &str) -> (r: Option<&StateData>)
        requires
            self.wf(),
        ensures
            match r {
                Some(v) => crate::kv::has_key(self.data@, domain@)
                    && *v == crate::kv::value_of(self.data@, domain@),
                None => !crate::kv::has_key(self.data@, domain@),
            },
    {
        self.data.get(domain)
    }

    /// Replaces the data under a domain, bumps the version, and recomputes
    /// the hash.
    pub fn set(&mut self, domain: &str, data: StateData)
        requires
            old(self).wf(),
        ensures
            final(self).wf(),
            final(self).data.spec_map()
                == old(self).data.spec_map().insert(domain@, data),
            final(self).version == if old(self).version == u64::MAX { u64::MAX } else {
                (old(self).version + 1) as u64
            },
    {
        self.data.insert(String::from_str(domain), data);
        if self.version < u64::MAX {
            self.version = self.version + 1;
        }
        self.state_hash = hash_of_data(&self.data);
    }

    /// Removes a domain if present; only then bumps the version and
    /// recomputes the hash.
    pub fn remove(&mut self, domain: &str) -> (r: Option<StateData>)
        requires
            old(self).wf(),
        ensures
            final(self).wf(),
            final(self).data.spec_map() == old(self).data.spec_map().remove(domain@),
            r is Some ==> crate::kv::has_key(old(self).data@, domain@)
                && r->0 == crate::kv::value_of(old(self).data@, domain@)
                && final(self).version == if old(self).version == u64::MAX { u64::MAX }
                    else { (old(self).version + 1) as u64 },
            r is None ==> !crate::kv::has_key(old(self).data@, domain@)
                && *final(self) == *old(self),
    {
        let ghost pre = self.data@;
        let r = self.data.remove(domain);
        match r {
            Option::Some(v) => {
                proof {
                    assert(pre == old(self).data@);
                    assert(crate::kv::has_key(old(self).data@, domain@));
                    assert(v == crate::kv::value_of(old(self).data@, domain@));
                }
                if self.version < u64::MAX {
                    self.version = self.version + 1;
                }
                self.state_hash = hash_of_data(&self.data);
                proof {
                    assert(self.version == if old(self).version == u64::MAX { u64::MAX }
                        else { (old(self).version + 1) as u64 });
                    assert(self.wf());
                }
                Some(v)
            },
            Option::None => {
                proof {
                    assert(self.data@ == old(self).data@);
                }
                None
            },
        }
    }

    /// Whether this state and another have the same hash.
    pub fn matches(&self, other: &Self) -> (b: bool)
        ensures
            b == (self.state_hash@ == other.state_hash@),
    {
        self.state_hash.eq(&other.state_hash)
    }

    /// The cached state hash.
    pub fn hash(&self) -> (r: crate::hashes::Hash)
        ensures
            r@ == self.state_hash@,
    {
        self.state_hash.clone()
    }

    /// The version.
    pub fn version(&self) -> (r: u64)
        ensures
            r == self.version,
    {
        self.version
    }
}

/// The hash of the canonical form of a data map.
fn hash_of_data(data: &StrMap<StateData>) -> (r: crate::hashes::Hash)
    ensures
        r@ == spec_state_hash(data@),
{
    let n = data.len();
    let mut es: Vec<(Vec<u8>, CanonValue)> = Vec::new();
    let mut i: usize = 0;
    proof {
        assert(cv_view_entries(es@) =~= state_canon(data@)->Object_0.take(0));
    }
    while i < n
        invariant
            n == data@.len(),
            i <= n,
            cv_view_entries(es@) == state_canon(data@)->Object_0.take(i as int),
        decreases n - i,
    {
        let (key, value) = data.entry_at(i);
        let ghost old_es = es@;
        let kb = vstd::slice::slice_to_vec(key.as_str().as_bytes());
        let cv = value.to_canon();
        es.push((kb, cv));
        proof {
            let x = es@[es@.len() - 1];
            assert(es@ == old_es.push(x));
            lemma_cv_view_entries_push(old_es, x);
            assert(cv_view_entries(es@) =~= state_canon(data@)->Object_0.take(i + 1));
        }
        i += 1;
    }
    proof {
        assert(state_canon(data@)->Object_0.take(n as int) =~= state_canon(data@)->Object_0);
    }
    let c = CanonValue::Object(es);
    crate::hashes::Hash::from_canonical(&c)
}

/// Two well-formed states holding the same data have the same hash,
/// whatever order their domains were inserted in.
pub proof fn lemma_state_hash_extensional(a: &AgentState, b: &AgentState)
    requires
        a.wf(),
        b.wf(),
        a.data.spec_map() == b.data.spec_map(),
    ensures
        a.state_hash@ == b.state_hash@,
{
    lemma_sorted_extensional(a.data@, b.data@);
}

/// The state hash of a well-formed state is exactly the hash of its
/// canonical data.
pub proof fn lemma_state_hash_determinism(s: &AgentState)
    requires
        s.wf(),
    ensures
        s.state_hash@ == spec_state_hash(s.data@),
{
}

/// A recorded state transition and its binding hash.
#[derive(Debug)]
pub struct StateTransition {
    /// The state hash before.
    pub from_hash: crate::hashes::Hash,
    /// The resulting state.
    pub to_state: AgentState,
    /// The hash of the causing event.
    pub event_hash: crate::hashes::Hash,
    /// The hash binding previous state, event and next state.
    pub transition_hash: crate::hashes::Hash,
}

impl StateTransition {
    /// A transition record; the binding hash covers the previous state
    /// hash, the event hash and the new state hash, in that order.
    pub fn new(from_hash: crate::hashes::Hash, to_state: AgentState,
        event_hash: crate::hashes::Hash) -> (r: Self)
        ensures
            r.from_hash@ == from_hash@,
            r.to_state == to_state,
            r.event_hash@ == event_hash@,
            r.transition_hash@ == blake3_of(from_hash@ + event_hash@ + to_state.state_hash@),
    {
        let th = crate::hashes::transition_hash(from_hash.clone(), event_hash.clone(),
            to_state.hash());
        StateTransition { from_hash, to_state, event_hash, transition_hash: th }
    }

    /// The binding hash.
    pub fn hash(&self) -> (r: crate::hashes::Hash)
        ensures
            r@ == self.transition_hash@,
    {
        self.transition_hash.clone()
    }
}

/// An observation handed to the agent.
#[derive(Debug)]
pub struct Observation {
    /// What kind of observation.
    pub kind: String,
    /// The observed values.
    pub data: StrMap<StateValue>,
    /// When it was observed, logically.
    pub logical_time: u64,
}

impl Observation {
    /// An observation without data.
    pub fn new(kind: &str, logical_time: u64) -> (r: Self)
        ensures
            r.kind@ == kind@,
            r.logical_time == logical_time,
            r.data@.len() == 0,
            r.data.wf(),
    {
        Observation { kind: String::from_str(kind), data: StrMap::new(), logical_time }
    }

    /// The same observation with one more field.
    pub fn with_field(self, key: &str, value: StateValue) -> (r: Self)
        requires
            self.data.wf(),
        ensures
            r.kind == self.kind,
            r.logical_time == self.logical_time,
            r.data.wf(),
            r.data.spec_map() == self.data.spec_map().insert(key@, value),
    {
        let mut data = self.data;
        data.insert(String::from_str(key), value);
        Observation { kind: self.kind, data, logical_time: self.logical_time }
    }
}

/// What the agent decided to do.
#[derive(Debug)]
pub enum Decision {
    /// Observe only.
    Idle,
    /// Call a tool.
    ToolCall(ToolCall),
    /// Propose a self-patch.
    PatchProposal(PatchProposal),
    /// Several decisions at once.
    Multiple(Vec<Decision>),
}

/// A decision to call a tool.
#[derive(Debug)]
pub struct ToolCall {
    /// The tool to call.
    pub tool_name: String,
    /// The tool version.
    pub tool_version: String,
    /// The input, as stable text.
    pub input: String,
    /// The capabilities the call needs.
    pub capabilities: Vec<String>,
}

impl ToolCall {
    /// A call without capabilities.
    pub fn new(tool_name: &str, tool_version: &str, input: &str) -> (r: Self)
        ensures
            r.tool_name@ == tool_name@,
            r.tool_version@ == tool_version@,
            r.input@ == input@,
            r.capabilities@.len() == 0,
    {
        ToolCall {
            tool_name: String::from_str(tool_name),
            tool_version: String::from_str(tool_version),
            input: String::from_str(input),
            capabilities: Vec::new(),
        }
    }

    /// The same call, requiring one more capability.
    pub fn with_capability(self, capability: &str) -> (r: Self)
        ensures
            r.tool_name == self.tool_name,
            r.tool_version == self.tool_version,
            r.input == self.input,
            r.capabilities@.len() == self.capabilities@.len() + 1,
            forall|i: int| 0 <= i < self.capabilities@.len()
                ==> r.capabilities@[i] == self.capabilities@[i],
            r.capabilities@[self.capabilities@.len() as int]@ == capability@,
    {
        let mut capabilities = self.capabilities;
        capabilities.push(String::from_str(capability));
        ToolCall {
            tool_name: self.tool_name,
            tool_version: self.tool_version,
            input: self.input,
            capabilities,
        }
    }
}

/// A proposed self-modification.
#[derive(Debug)]
pub struct PatchProposal {
    /// What kind of patch.
    pub patch_type: PatchType,
    /// What it targets.
    pub target: String,
    /// The patch body.
    pub patch: String,
    /// Why it is proposed.
    pub reasoning: String,
    /// Tests the patch must pass.
    pub test_requirements: Vec<String>,
}

impl PatchProposal {
    /// A proposal without test requirements.
    pub fn new(patch_type: PatchType, target: &str, patch: &str, reasoning: &str) -> (r: Self)
        ensures
            r.patch_type == patch_type,
            r.target@ == target@,
            r.patch@ == patch@,
            r.reasoning@ == reasoning@,
            r.test_requirements@.len() == 0,
    {
        PatchProposal {
            patch_type,
            target: String::from_str(target),
            patch: String::from_str(patch),
            reasoning: String::from_str(reasoning),
            test_requirements: Vec::new(),
        }
    }
}

/// What a patch changes.
#[derive(Clone, Debug, PartialEq, Eq)]
pub enum PatchType {
    /// A prompt update.
    Prompt,
    /// A policy update.
    Policy,
    /// A routing heuristic update.
    Routing,
    /// A configuration update.
    Config,
    /// A tool addition or removal.
    Tools,
    /// Any other kind, by name.
    Other(String),
}

/// The agent interface: a deterministic state machine over observations and
/// tool responses. Implementations are injected by the run controller.
pub trait StateMachine {
    /// One transition: from the current state, an observation and pending
    /// tool responses to the next state and a decision.
    fn transition(
        &self,
        state: &AgentState,
        observation: &Observation,
        tool_responses: &[ToolResponse],
        context: &ExecutionContext,
    ) -> Result<Transition, StateError>;

    /// The state a fresh run starts from.
    fn initial_state(&self) -> AgentState;
}

/// State machine errors.
#[derive(Clone, Debug, PartialEq, Eq)]
pub enum StateError {
    /// The transition is not allowed.
    InvalidTransition {
        /// Where the transition started.
        from: String,
        /// Where it tried to go.
        to: String,
    },
    /// A required state domain is missing.
    MissingState(String),
    /// The state failed an integrity check.
    Corrupted(String),
    /// The observation was rejected.
    InvalidObservation(String),
    /// The transition failed.
    TransitionFailed(String),
}

/// The output of one transition.
#[derive(Debug)]
pub struct Transition {
    /// The next state.
    pub state: AgentState,
    /// The decision taken.
    pub decision: Decision,
    /// The hash binding the transition.
    pub transition_hash: crate::hashes::Hash,
}

impl Transition {
    /// A transition whose binding hash is the new state's hash.
    pub fn new(state: AgentState, decision: Decision) -> (r: Self)
        ensures
            r.state == state,
            r.decision == decision,
            r.transition_hash@ == state.state_hash@,
    {
        let transition_hash = state.hash();
        Transition { state, decision, transition_hash }
    }
}

/// The deterministic context a transition runs in.
#[derive(Clone, Copy, Debug, PartialEq, Eq, Structural)]
pub struct ExecutionContext {
    /// The logical time of the transition.
    pub logical_time: u64,
    /// The run id.
    pub run_id: u64,
    /// The injected random seed, if any.
    pub seed: Option<u64>,
}

impl ExecutionContext {
    /// A context without a seed.
    pub fn new(logical_time: u64, run_id: u64) -> (r: Self)
        ensures
            r.logical_time == logical_time,
            r.run_id == run_id,
            r.seed is None,
    {
        ExecutionContext { logical_time, run_id, seed: None }
    }

    /// A context with an injected seed.
    pub fn with_seed(logical_time: u64, run_id: u64, seed: u64) -> (r: Self)
        ensures
            r.logical_time == logical_time,
            r.run_id == run_id,
            r.seed == Some(seed),
    {
        ExecutionContext { logical_time, run_id, seed: Some(seed) }
    }
}

/// A tool's answer, as handed to the agent.
#[derive(Debug)]
pub struct ToolResponse {
    /// The tool that answered.
    pub tool_name: String,
    /// The response data.
    pub data: StateData,
    /// Whether the call succeeded.
    pub success: bool,
    /// The error message, if it failed.
    pub error: Option<String>,
}

impl ToolResponse {
    /// A successful response.
    pub fn success(tool_name: &str, data: StateData) -> (r: Self)
        ensures
            r.tool_name@ == tool_name@,
            r.data == data,
            r.success,
            r.error is None,
    {
        ToolResponse {
            tool_name: String::from_str(tool_name),
            data,
            success: true,
            error: None,
        }
    }

    /// A failed response.
    pub fn error(tool_name: &str, error: &str) -> (r: Self)
        ensures
            r.tool_name@ == tool_name@,
            r.data == StateData::Value(StateValue::Null),
            !r.success,
            r.error matches Some(e) && e@ == error@,
    {
        ToolResponse {
            tool_name: String::from_str(tool_name),
            data: StateData::Value(StateValue::Null),
            success: false,
            error: Some(String::from_str(error)),
        }
    }
}

} // verus!

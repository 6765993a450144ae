//! The append-only event log: sequence-checked, parent-linked and
//! hash-verified. The log is the source of truth for replay.

use vstd::prelude::*;
use vstd::string::StrSliceExecFns;
use vstd::string::StringSliceAdditionalSpecFns;
use vstd::utf8::encode_utf8;
use vstd::slice::slice_to_vec;
use crate::capability::Capability;
use crate::canon::{CanonValue, CanonData, cv_view, cv_view_list, cv_view_entries, spec_encode,
    lemma_cv_view_list_push, lemma_cv_view_entries_push};
use crate::errors::EventLogError;
use crate::hashes::blake3_of;
use crate::kv::StrMap;
use crate::timebase::LogicalTime;

verus! {

/// A unique event identifier: run id and position within the run.
#[derive(Clone, Copy, Debug, PartialEq, Eq, Structural, PartialOrd, Ord, Hash)]
pub struct EventId {
    /// The run the event belongs to.
    pub run_id: u64,
    /// The position within the run.
    pub sequence: u64,
}

impl EventId {
    /// An id from its parts.
    pub fn new(run_id: u64, sequence: u64) -> (r: Self)
        ensures
            r.run_id == run_id,
            r.sequence == sequence,
    {
        EventId { run_id, sequence }
    }

    /// The first id of a run.
    pub fn initial(run_id: u64) -> (r: Self)
        ensures
            r.run_id == run_id,
            r.sequence == 0,
    {
        EventId { run_id, sequence: 0 }
    }

    /// The id one position later in the same run.
    pub fn next(&self) -> (r: Self)
        requires
            self.sequence < u64::MAX,
        ensures
            r.run_id == self.run_id,
            r.sequence == self.sequence + 1,
    {
        EventId { run_id: self.run_id, sequence: self.sequence + 1 }
    }

    /// The same instant as a logical time.
    pub fn to_logical_time(&self) -> (r: LogicalTime)
        ensures
            r.run_id == self.run_id,
            r.sequence == self.sequence,
    {
        LogicalTime { run_id: self.run_id, sequence: self.sequence }
    }

    /// The run id.
    pub fn run_id(&self) -> (r: u64)
        ensures
            r == self.run_id,
    {
        self.run_id
    }

    /// The sequence.
    pub fn sequence(&self) -> (r: u64)
        ensures
            r == self.sequence,
    {
        self.sequence
    }
}

/// What kind of event a log entry records.
#[derive(Clone, Debug, PartialEq, Eq)]
pub enum EventKind {
    /// An agent was initialised.
    AgentInit,
    /// The agent state changed.
    StateTransition,
    /// A tool was requested.
    ToolRequest,
    /// A tool responded.
    ToolResponse,
    /// A capability was denied.
    CapabilityDenied,
    /// An observation arrived.
    Observation,
    /// The agent decided.
    Decision,
    /// Memory was written.
    MemoryWrite,
    /// Memory was read.
    MemoryRead,
    /// A patch was proposed.
    PatchProposal,
    /// A patch was applied.
    PatchApplied,
    /// A patch was rejected.
    PatchRejected,
    /// An error occurred.
    Error,
    /// A snapshot was taken.
    Snapshot,
    /// Any other kind, by name.
    Custom(String),
}

/// The wire name of an event kind.
pub open spec fn kind_name(k: EventKind) -> Seq<char> {
    match k {
        EventKind::AgentInit => "agent_init"@,
        EventKind::StateTransition => "state_transition"@,
        EventKind::ToolRequest => "tool_request"@,
        EventKind::ToolResponse => "tool_response"@,
        EventKind::CapabilityDenied => "capability_denied"@,
        EventKind::Observation => "observation"@,
        EventKind::Decision => "decision"@,
        EventKind::MemoryWrite => "memory_write"@,
        EventKind::MemoryRead => "memory_read"@,
        EventKind::PatchProposal => "patch_proposal"@,
        EventKind::PatchApplied => "patch_applied"@,
        EventKind::PatchRejected => "patch_rejected"@,
        EventKind::Error => "error"@,
        EventKind::Snapshot => "snapshot"@,
        EventKind::Custom(s) => s@,
    }
}

impl EventKind {
    /// The wire name of this kind.
    pub fn as_str(&self) -> (r: &str)
        ensures
            r@ == kind_name(*self),
    {
        match self {
            EventKind::AgentInit => "agent_init",
            EventKind::StateTransition => "state_transition",
            EventKind::ToolRequest => "tool_request",
            EventKind::ToolResponse => "tool_response",
            EventKind::CapabilityDenied => "capability_denied",
            EventKind::Observation => "observation",
            EventKind::Decision => "decision",
            EventKind::MemoryWrite => "memory_write",
            EventKind::MemoryRead => "memory_read",
            EventKind::PatchProposal => "patch_proposal",
            EventKind::PatchApplied => "patch_applied",
            EventKind::PatchRejected => "patch_rejected",
            EventKind::Error => "error",
            EventKind::Snapshot => "snapshot",
            EventKind::Custom(s) => s.as_str(),
        }
    }
}

/// Agent initialisation data.
#[derive(Debug)]
pub struct AgentInitPayload {
    /// The agent type.
    pub agent_type: String,
    /// The agent version.
    pub agent_version: String,
    /// Initial configuration.
    pub config: StrMap<String>,
}

/// A recorded state change.
#[derive(Clone, Debug)]
pub struct StateTransitionPayload {
    /// The state hash before.
    pub from_hash: crate::hashes::Hash,
    /// The state hash after.
    pub to_hash: crate::hashes::Hash,
    /// What kind of transition.
    pub transition_type: String,
}

/// A tool request.
#[derive(Debug)]
pub struct ToolRequestPayload {
    /// The tool name.
    pub tool_name: String,
    /// The tool version.
    pub tool_version: String,
    /// The hash of the request.
    pub request_hash: crate::hashes::Hash,
    /// The capabilities the call needs.
    pub capabilities: Vec<Capability>,
    /// The input, as stable text.
    pub input: String,
}

/// A tool response.
#[derive(Clone, Debug)]
pub struct ToolResponsePayload {
    /// The tool name.
    pub tool_name: String,
    /// The request this answers.
    pub request_hash: crate::hashes::Hash,
    /// The hash of the response.
    pub response_hash: crate::hashes::Hash,
    /// The output, as stable text.
    pub output: String,
    /// Whether the call succeeded.
    pub success: bool,
    /// The error message, if it failed.
    pub error: Option<String>,
    /// How long the call took, in milliseconds.
    pub duration_ms: u64,
}

/// A denied capability.
#[derive(Debug)]
pub struct CapabilityDeniedPayload {
    /// The capability asked for.
    pub capability: Capability,
    /// The tool that was refused.
    pub tool_name: String,
    /// Why it was refused.
    pub reason: String,
}

/// An observation from the environment.
#[derive(Debug)]
pub struct ObservationPayload {
    /// What was observed.
    pub obs_type: String,
    /// The observed data.
    pub data: StrMap<String>,
    /// Where it came from.
    pub source: String,
}

/// A decision the agent made.
#[derive(Debug)]
pub struct DecisionPayload {
    /// What was decided.
    pub decision_type: String,
    /// The decision data.
    pub data: StrMap<String>,
    /// Why, if recorded.
    pub reasoning: Option<String>,
}

/// A memory operation.
#[derive(Clone, Debug)]
pub struct MemoryPayload {
    /// The operation name.
    pub operation: String,
    /// The key touched.
    pub key: String,
    /// The hash of the written value, if any.
    pub value_hash: Option<crate::hashes::Hash>,
    /// The event that caused the operation.
    pub causal_event: EventId,
}

/// A patch event.
#[derive(Clone, Debug)]
pub struct PatchPayload {
    /// The patch type.
    pub patch_type: String,
    /// What the patch targets.
    pub target: String,
    /// The hash of the patch.
    pub patch_hash: crate::hashes::Hash,
    /// Why the patch was proposed.
    pub reasoning: String,
}

/// A rejected patch.
#[derive(Clone, Debug)]
pub struct PatchRejectedPayload {
    /// The hash of the patch.
    pub patch_hash: crate::hashes::Hash,
    /// Why it was rejected.
    pub reason: String,
    /// The stage at which it was rejected.
    pub stage: String,
}

/// An error event.
#[derive(Clone, Debug)]
pub struct ErrorPayload {
    /// The error type.
    pub error_type: String,
    /// The message.
    pub message: String,
    /// The component that failed.
    pub component: String,
    /// Whether the run may continue.
    pub recoverable: bool,
}

/// A snapshot event.
#[derive(Clone, Debug)]
pub struct SnapshotPayload {
    /// The snapshot id.
    pub snapshot_id: String,
    /// The sequence at the snapshot.
    pub at_sequence: u64,
    /// The state hash at the snapshot.
    pub state_hash: crate::hashes::Hash,
    /// How many events came before.
    pub events_before: u64,
}

/// The typed payload of an event, one variant per kind.
#[derive(Debug)]
pub enum EventPayload {
    /// Agent initialisation.
    AgentInit(AgentInitPayload),
    /// A state change.
    StateTransition(StateTransitionPayload),
    /// A tool request.
    ToolRequest(ToolRequestPayload),
    /// A tool response.
    ToolResponse(ToolResponsePayload),
    /// A denied capability.
    CapabilityDenied(CapabilityDeniedPayload),
    /// An observation.
    Observation(ObservationPayload),
    /// A decision.
    Decision(DecisionPayload),
    /// A memory write.
    MemoryWrite(MemoryPayload),
    /// A memory read.
    MemoryRead(MemoryPayload),
    /// A patch proposal.
    PatchProposal(PatchPayload),
    /// An applied patch.
    PatchApplied(PatchPayload),
    /// A rejected patch.
    PatchRejected(PatchRejectedPayload),
    /// An error.
    Error(ErrorPayload),
    /// A snapshot.
    Snapshot(SnapshotPayload),
    /// Free-form data.
    Raw(StrMap<String>),
}

/// A string as canonical text.
pub open spec fn text_of(s: Seq<char>) -> CanonData {
    CanonData::Text(encode_utf8(s))
}

/// An optional string as canonical data.
pub open spec fn opt_text_of(o: Option<String>) -> CanonData {
    match o {
        Option::None => CanonData::Null,
        Option::Some(s) => text_of(s@),
    }
}

/// An optional hash as canonical data.
pub open spec fn opt_blob_of(o: Option<crate::hashes::Hash>) -> CanonData {
    match o {
        Option::None => CanonData::Null,
        Option::Some(h) => CanonData::Blob(h@),
    }
}

/// A string map as a canonical object, keys in their sorted order.
pub open spec fn strmap_canon(m: Seq<(Seq<char>, String)>) -> CanonData {
    CanonData::Object(Seq::new(m.len(), |i: int| (encode_utf8(m[i].0), text_of(m[i].1@))))
}

/// A capability list as canonical text values.
pub open spec fn caps_canon(s: Seq<Capability>) -> CanonData {
    CanonData::List(Seq::new(s.len(), |i: int| text_of(s[i]@)))
}

/// An event id as a two-element canonical list.
pub open spec fn event_id_canon(id: EventId) -> CanonData {
    CanonData::List(seq![CanonData::U64(id.run_id), CanonData::U64(id.sequence)])
}

/// The canonical form of a payload: its kind name followed by its fields,
/// in declaration order.
#[verifier::opaque]
pub open spec fn spec_payload_canon(p: EventPayload) -> CanonData {
    match p {
        EventPayload::AgentInit(x) => spec_canon_agent_init(x),
        EventPayload::StateTransition(x) => spec_canon_state_transition(x),
        EventPayload::ToolRequest(x) => spec_canon_tool_request(x),
        EventPayload::ToolResponse(x) => spec_canon_tool_response(x),
        EventPayload::CapabilityDenied(x) => spec_canon_capability_denied(x),
        EventPayload::Observation(x) => spec_canon_observation(x),
        EventPayload::Decision(x) => spec_canon_decision(x),
        EventPayload::MemoryWrite(x) => spec_canon_memory_write(x),
        EventPayload::MemoryRead(x) => spec_canon_memory_read(x),
        EventPayload::PatchProposal(x) => spec_canon_patch_proposal(x),
        EventPayload::PatchApplied(x) => spec_canon_patch_applied(x),
        EventPayload::PatchRejected(x) => spec_canon_patch_rejected(x),
        EventPayload::Error(x) => spec_canon_error(x),
        EventPayload::Snapshot(x) => spec_canon_snapshot(x),
        EventPayload::Raw(m) => spec_canon_raw(m),
    }
}

/// The canonical form of this payload variant.
pub open spec fn spec_canon_agent_init(x: AgentInitPayload) -> CanonData {
    CanonData::List(seq![
        text_of("agent_init"@), text_of(x.agent_type@), text_of(x.agent_version@),
        strmap_canon(x.config@),
    ])
}

/// The canonical form of this payload variant.
pub open spec fn spec_canon_state_transition(x: StateTransitionPayload) -> CanonData {
    CanonData::List(seq![
        text_of("state_transition"@), CanonData::Blob(x.from_hash@),
        CanonData::Blob(x.to_hash@), text_of(x.transition_type@),
    ])
}

/// The canonical form of this payload variant.
pub open spec fn spec_canon_tool_request(x: ToolRequestPayload) -> CanonData {
    CanonData::List(seq![
        text_of("tool_request"@), text_of(x.tool_name@), text_of(x.tool_version@),
        CanonData::Blob(x.request_hash@), caps_canon(x.capabilities@), text_of(x.input@),
    ])
}

/// The canonical form of this payload variant.
pub open spec fn spec_canon_tool_response(x: ToolResponsePayload) -> CanonData {
    CanonData::List(seq![
        text_of("tool_response"@), text_of(x.tool_name@), CanonData::Blob(x.request_hash@),
        CanonData::Blob(x.response_hash@), text_of(x.output@), CanonData::Bool(x.success),
        opt_text_of(x.error), CanonData::U64(x.duration_ms),
    ])
}

/// The canonical form of this payload variant.
pub open spec fn spec_canon_capability_denied(x: CapabilityDeniedPayload) -> CanonData {
    CanonData::List(seq![
        text_of("capability_denied"@), text_of(x.capability@), text_of(x.tool_name@),
        text_of(x.reason@),
    ])
}

/// The canonical form of this payload variant.
pub open spec fn spec_canon_observation(x: ObservationPayload) -> CanonData {
    CanonData::List(seq![
        text_of("observation"@), text_of(x.obs_type@), strmap_canon(x.data@),
        text_of(x.source@),
    ])
}

/// The canonical form of this payload variant.
pub open spec fn spec_canon_decision(x: DecisionPayload) -> CanonData {
    CanonData::List(seq![
        text_of("decision"@), text_of(x.decision_type@), strmap_canon(x.data@),
        opt_text_of(x.reasoning),
    ])
}

/// The canonical form of this payload variant.
pub open spec fn spec_canon_memory_write(x: MemoryPayload) -> CanonData {
    CanonData::List(seq![
        text_of("memory_write"@), text_of(x.operation@), text_of(x.key@),
        opt_blob_of(x.value_hash), event_id_canon(x.causal_event),
    ])
}

/// The canonical form of this payload variant.
pub open spec fn spec_canon_memory_read(x: MemoryPayload) -> CanonData {
    CanonData::List(seq![
        text_of("memory_read"@), text_of(x.operation@), text_of(x.key@),
        opt_blob_of(x.value_hash), event_id_canon(x.causal_event),
    ])
}

/// The canonical form of this payload variant.
pub open spec fn spec_canon_patch_proposal(x: PatchPayload) -> CanonData {
    CanonData::List(seq![
        text_of("patch_proposal"@), text_of(x.patch_type@), text_of(x.target@),
        CanonData::Blob(x.patch_hash@), text_of(x.reasoning@),
    ])
}

/// The canonical form of this payload variant.
pub open spec fn spec_canon_patch_applied(x: PatchPayload) -> CanonData {
    CanonData::List(seq![
        text_of("patch_applied"@), text_of(x.patch_type@), text_of(x.target@),
        CanonData::Blob(x.patch_hash@), text_of(x.reasoning@),
    ])
}

/// The canonical form of this payload variant.
pub open spec fn spec_canon_patch_rejected(x: PatchRejectedPayload) -> CanonData {
    CanonData::List(seq![
        text_of("patch_rejected"@), CanonData::Blob(x.patch_hash@), text_of(x.reason@),
        text_of(x.stage@),
    ])
}

/// The canonical form of this payload variant.
pub open spec fn spec_canon_error(x: ErrorPayload) -> CanonData {
    CanonData::List(seq![
        text_of("error"@), text_of(x.error_type@), text_of(x.message@),
        text_of(x.component@), CanonData::Bool(x.recoverable),
    ])
}

/// The canonical form of this payload variant.
pub open spec fn spec_canon_snapshot(x: SnapshotPayload) -> CanonData {
    CanonData::List(seq![
        text_of("snapshot"@), text_of(x.snapshot_id@), CanonData::U64(x.at_sequence),
        CanonData::Blob(x.state_hash@), CanonData::U64(x.events_before),
    ])
}

/// The canonical form of this payload variant.
pub open spec fn spec_canon_raw(m: StrMap<String>) -> CanonData {
    CanonData::List(seq![
        text_of("raw"@), strmap_canon(m@),
    ])
}

/// The hash of a payload's canonical bytes.
pub open spec fn spec_payload_hash(p: EventPayload) -> Seq<u8> {
    blake3_of(spec_encode(spec_payload_canon(p)))
}

/// The UTF-8 bytes of a string.
pub(crate) fn sbytes(s: &str) -> (r: Vec<u8>)
    ensures
        r@ == encode_utf8(s@),
{
    slice_to_vec(s.as_bytes())
}

/// A canonical text value from a string.
pub(crate) fn text_val(s: &str) -> (r: CanonValue)
    ensures
        cv_view(r) == text_of(s@),
{
    CanonValue::Text(sbytes(s))
}

/// A canonical blob from a hash.
pub(crate) fn blob_val(h: &crate::hashes::Hash) -> (r: CanonValue)
    ensures
        cv_view(r) == CanonData::Blob(h@),
{
    CanonValue::Blob(slice_to_vec(h.as_bytes()))
}

/// Appends an item, extending the list's shape by one.
pub(crate) fn push_item(items: &mut Vec<CanonValue>, v: CanonValue)
    ensures
        final(items)@.len() == old(items)@.len() + 1,
        cv_view_list(final(items)@) == cv_view_list(old(items)@) + seq![cv_view(v)],
{
    let ghost gv = v;
    let ghost old_items = items@;
    items.push(v);
    proof {
        lemma_cv_view_list_push(old_items, gv);
    }
}

/// Appends an entry, extending the object's shape by one.
pub(crate) fn push_entry(es: &mut Vec<(Vec<u8>, CanonValue)>, key: Vec<u8>, v: CanonValue)
    ensures
        final(es)@.len() == old(es)@.len() + 1,
        cv_view_entries(final(es)@) == cv_view_entries(old(es)@) + seq![(key@, cv_view(v))],
{
    let ghost gk = key@;
    let ghost gv = v;
    let ghost old_es = es@;
    es.push((key, v));
    proof {
        let x = es@[es@.len() - 1];
        assert(es@ == old_es.push(x));
        lemma_cv_view_entries_push(old_es, x);
        assert(x.0@ == gk);
        assert(x.1 == gv);
        assert(cv_view_entries(es@) =~= cv_view_entries(old_es) + seq![(gk, cv_view(gv))]);
    }
}

/// A string map as a canonical object value.
pub(crate) fn strmap_val(m: &StrMap<String>) -> (r: CanonValue)
    ensures
        cv_view(r) == strmap_canon(m@),
{
    let n = m.len();
    let mut es: Vec<(Vec<u8>, CanonValue)> = Vec::new();
    let mut i: usize = 0;
    proof {
        assert(cv_view_entries(es@) =~= strmap_canon(m@)->Object_0.take(0));
    }
    while i < n
        invariant
            n == m@.len(),
            i <= n,
            cv_view_entries(es@) == strmap_canon(m@)->Object_0.take(i as int),
        decreases n - i,
    {
        let (key, value) = m.entry_at(i);
        push_entry(&mut es, sbytes(key.as_str()), text_val(value.as_str()));
        proof {
            assert(cv_view_entries(es@) =~= strmap_canon(m@)->Object_0.take(i + 1));
        }
        i += 1;
    }
    proof {
        assert(strmap_canon(m@)->Object_0.take(n as int) =~= strmap_canon(m@)->Object_0);
    }
    CanonValue::Object(es)
}

/// A capability list as a canonical list value.
pub(crate) fn caps_val(cs: &Vec<Capability>) -> (r: CanonValue)
    ensures
        cv_view(r) == caps_canon(cs@),
{
    let n = cs.len();
    let mut items: Vec<CanonValue> = Vec::new();
    let mut i: usize = 0;
    proof {
        assert(cv_view_list(items@) =~= caps_canon(cs@)->List_0.take(0));
    }
    while i < n
        invariant
            n == cs@.len(),
            i <= n,
            cv_view_list(items@) == caps_canon(cs@)->List_0.take(i as int),
        decreases n - i,
    {
        push_item(&mut items, text_val(cs[i].name()));
        proof {
            assert(cv_view_list(items@) =~= caps_canon(cs@)->List_0.take(i + 1));
        }
        i += 1;
    }
    proof {
        assert(caps_canon(cs@)->List_0.take(n as int) =~= caps_canon(cs@)->List_0);
    }
    CanonValue::List(items)
}

/// An event id as a canonical value.
pub(crate) fn id_val(id: &EventId) -> (r: CanonValue)
    ensures
        cv_view(r) == event_id_canon(*id),
{
    let mut items: Vec<CanonValue> = Vec::new();
    proof {
        assert(cv_view_list(items@) =~= Seq::<CanonData>::empty());
    }
    push_item(&mut items, CanonValue::U64(id.run_id));
    push_item(&mut items, CanonValue::U64(id.sequence));
    proof {
        assert(cv_view_list(items@) =~= event_id_canon(*id)->List_0);
    }
    CanonValue::List(items)
}

/// The canonical form of this payload variant.
fn canon_agent_init(x: &AgentInitPayload) -> (r: CanonValue)
    ensures
        cv_view(r) == spec_canon_agent_init(*x),
{
    let mut items: Vec<CanonValue> = Vec::new();
    proof {
        assert(cv_view_list(items@) =~= Seq::<CanonData>::empty());
    }
            push_item(&mut items, text_val("agent_init"));
            push_item(&mut items, text_val(x.agent_type.as_str()));
            push_item(&mut items, text_val(x.agent_version.as_str()));
            push_item(&mut items, strmap_val(&x.config));
    proof {
        assert(cv_view_list(items@)
            =~= spec_canon_agent_init(*x)->List_0);
    }
    CanonValue::List(items)
}

/// The canonical form of this payload variant.
fn canon_state_transition(x: &StateTransitionPayload) -> (r: CanonValue)
    ensures
        cv_view(r) == spec_canon_state_transition(*x),
{
    let mut items: Vec<CanonValue> = Vec::new();
    proof {
        assert(cv_view_list(items@) =~= Seq::<CanonData>::empty());
    }
            push_item(&mut items, text_val("state_transition"));
            push_item(&mut items, blob_val(&x.from_hash));
            push_item(&mut items, blob_val(&x.to_hash));
            push_item(&mut items, text_val(x.transition_type.as_str()));
    proof {
        assert(cv_view_list(items@)
            =~= spec_canon_state_transition(*x)->List_0);
    }
    CanonValue::List(items)
}

/// The canonical form of this payload variant.
fn canon_tool_request(x: &ToolRequestPayload) -> (r: CanonValue)
    ensures
        cv_view(r) == spec_canon_tool_request(*x),
{
    let mut items: Vec<CanonValue> = Vec::new();
    proof {
        assert(cv_view_list(items@) =~= Seq::<CanonData>::empty());
    }
            push_item(&mut items, text_val("tool_request"));
            push_item(&mut items, text_val(x.tool_name.as_str()));
            push_item(&mut items, text_val(x.tool_version.as_str()));
            push_item(&mut items, blob_val(&x.request_hash));
            push_item(&mut items, caps_val(&x.capabilities));
            push_item(&mut items, text_val(x.input.as_str()));
    proof {
        assert(cv_view_list(items@)
            =~= spec_canon_tool_request(*x)->List_0);
    }
    CanonValue::List(items)
}

/// The canonical form of this payload variant.
fn canon_tool_response(x: &ToolResponsePayload) -> (r: CanonValue)
    ensures
        cv_view(r) == spec_canon_tool_response(*x),
{
    let mut items: Vec<CanonValue> = Vec::new();
    proof {
        assert(cv_view_list(items@) =~= Seq::<CanonData>::empty());
    }
            push_item(&mut items, text_val("tool_response"));
            push_item(&mut items, text_val(x.tool_name.as_str()));
            push_item(&mut items, blob_val(&x.request_hash));
            push_item(&mut items, blob_val(&x.response_hash));
            push_item(&mut items, text_val(x.output.as_str()));
            push_item(&mut items, CanonValue::Bool(x.success));
            match &x.error {
                Option::Some(e) => {
                    push_item(&mut items, text_val(e.as_str()));
                },
                Option::None => {
                    push_item(&mut items, CanonValue::Null);
                },
            }
            push_item(&mut items, CanonValue::U64(x.duration_ms));
    proof {
        assert(cv_view_list(items@)
            =~= spec_canon_tool_response(*x)->List_0);
    }
    CanonValue::List(items)
}

/// The canonical form of this payload variant.
fn canon_capability_denied(x: &CapabilityDeniedPayload) -> (r: CanonValue)
    ensures
        cv_view(r) == spec_canon_capability_denied(*x),
{
    let mut items: Vec<CanonValue> = Vec::new();
    proof {
        assert(cv_view_list(items@) =~= Seq::<CanonData>::empty());
    }
            push_item(&mut items, text_val("capability_denied"));
            push_item(&mut items, text_val(x.capability.name()));
            push_item(&mut items, text_val(x.tool_name.as_str()));
            push_item(&mut items, text_val(x.reason.as_str()));
    proof {
        assert(cv_view_list(items@)
            =~= spec_canon_capability_denied(*x)->List_0);
    }
    CanonValue::List(items)
}

/// The canonical form of this payload variant.
fn canon_observation(x: &ObservationPayload) -> (r: CanonValue)
    ensures
        cv_view(r) == spec_canon_observation(*x),
{
    let mut items: Vec<CanonValue> = Vec::new();
    proof {
        assert(cv_view_list(items@) =~= Seq::<CanonData>::empty());
    }
            push_item(&mut items, text_val("observation"));
            push_item(&mut items, text_val(x.obs_type.as_str()));
            push_item(&mut items, strmap_val(&x.data));
            push_item(&mut items, text_val(x.source.as_str()));
    proof {
        assert(cv_view_list(items@)
            =~= spec_canon_observation(*x)->List_0);
    }
    CanonValue::List(items)
}

/// The canonical form of this payload variant.
fn canon_decision(x: &DecisionPayload) -> (r: CanonValue)
    ensures
        cv_view(r) == spec_canon_decision(*x),
{
    let mut items: Vec<CanonValue> = Vec::new();
    proof {
        assert(cv_view_list(items@) =~= Seq::<CanonData>::empty());
    }
            push_item(&mut items, text_val("decision"));
            push_item(&mut items, text_val(x.decision_type.as_str()));
            push_item(&mut items, strmap_val(&x.data));
            match &x.reasoning {
                Option::Some(e) => {
                    push_item(&mut items, text_val(e.as_str()));
                },
                Option::None => {
                    push_item(&mut items, CanonValue::Null);
                },
            }
    proof {
        assert(cv_view_list(items@)
            =~= spec_canon_decision(*x)->List_0);
    }
    CanonValue::List(items)
}

/// The canonical form of this payload variant.
#[verifier::rlimit(100)]
#[verifier::spinoff_prover]
fn canon_memory_write(x: &MemoryPayload) -> (r: CanonValue)
    ensures
        cv_view(r) == spec_canon_memory_write(*x),
{
    let mut items: Vec<CanonValue> = Vec::new();
    proof {
        assert(cv_view_list(items@) =~= Seq::<CanonData>::empty());
    }
            push_item(&mut items, text_val("memory_write"));
            push_item(&mut items, text_val(x.operation.as_str()));
            push_item(&mut items, text_val(x.key.as_str()));
            match &x.value_hash {
                Option::Some(h) => {
                    push_item(&mut items, blob_val(h));
                },
                Option::None => {
                    push_item(&mut items, CanonValue::Null);
                },
            }
            push_item(&mut items, id_val(&x.causal_event));
    proof {
        assert(cv_view_list(items@)
            =~= spec_canon_memory_write(*x)->List_0);
    }
    CanonValue::List(items)
}

/// The canonical form of this payload variant.
#[verifier::rlimit(100)]
#[verifier::spinoff_prover]
fn canon_memory_read(x: &MemoryPayload) -> (r: CanonValue)
    ensures
        cv_view(r) == spec_canon_memory_read(*x),
{
    let mut items: Vec<CanonValue> = Vec::new();
    proof {
        assert(cv_view_list(items@) =~= Seq::<CanonData>::empty());
    }
            push_item(&mut items, text_val("memory_read"));
            push_item(&mut items, text_val(x.operation.as_str()));
            push_item(&mut items, text_val(x.key.as_str()));
            match &x.value_hash {
                Option::Some(h) => {
                    push_item(&mut items, blob_val(h));
                },
                Option::None => {
                    push_item(&mut items, CanonValue::Null);
                },
            }
            push_item(&mut items, id_val(&x.causal_event));
    proof {
        assert(cv_view_list(items@)
            =~= spec_canon_memory_read(*x)->List_0);
    }
    CanonValue::List(items)
}

/// The canonical form of this payload variant.
#[verifier::rlimit(100)]
#[verifier::spinoff_prover]
fn canon_patch_proposal(x: &PatchPayload) -> (r: CanonValue)
    ensures
        cv_view(r) == spec_canon_patch_proposal(*x),
{
    let mut items: Vec<CanonValue> = Vec::new();
    proof {
        assert(cv_view_list(items@) =~= Seq::<CanonData>::empty());
    }
            push_item(&mut items, text_val("patch_proposal"));
            push_item(&mut items, text_val(x.patch_type.as_str()));
            push_item(&mut items, text_val(x.target.as_str()));
            push_item(&mut items, blob_val(&x.patch_hash));
            push_item(&mut items, text_val(x.reasoning.as_str()));
    proof {
        assert(cv_view_list(items@)
            =~= spec_canon_patch_proposal(*x)->List_0);
    }
    CanonValue::List(items)
}

/// The canonical form of this payload variant.
#[verifier::rlimit(100)]
#[verifier::spinoff_prover]
fn canon_patch_applied(x: &PatchPayload) -> (r: CanonValue)
    ensures
        cv_view(r) == spec_canon_patch_applied(*x),
{
    let mut items: Vec<CanonValue> = Vec::new();
    proof {
        assert(cv_view_list(items@) =~= Seq::<CanonData>::empty());
    }
            push_item(&mut items, text_val("patch_applied"));
            push_item(&mut items, text_val(x.patch_type.as_str()));
            push_item(&mut items, text_val(x.target.as_str()));
            push_item(&mut items, blob_val(&x.patch_hash));
            push_item(&mut items, text_val(x.reasoning.as_str()));
    proof {
        assert(cv_view_list(items@)
            =~= spec_canon_patch_applied(*x)->List_0);
    }
    CanonValue::List(items)
}

/// The canonical form of this payload variant.
fn canon_patch_rejected(x: &PatchRejectedPayload) -> (r: CanonValue)
    ensures
        cv_view(r) == spec_canon_patch_rejected(*x),
{
    let mut items: Vec<CanonValue> = Vec::new();
    proof {
        assert(cv_view_list(items@) =~= Seq::<CanonData>::empty());
    }
            push_item(&mut items, text_val("patch_rejected"));
            push_item(&mut items, blob_val(&x.patch_hash));
            push_item(&mut items, text_val(x.reason.as_str()));
            push_item(&mut items, text_val(x.stage.as_str()));
    proof {
        assert(cv_view_list(items@)
            =~= spec_canon_patch_rejected(*x)->List_0);
    }
    CanonValue::List(items)
}

/// The canonical form of this payload variant.
fn canon_error(x: &ErrorPayload) -> (r: CanonValue)
    ensures
        cv_view(r) == spec_canon_error(*x),
{
    let mut items: Vec<CanonValue> = Vec::new();
    proof {
        assert(cv_view_list(items@) =~= Seq::<CanonData>::empty());
    }
            push_item(&mut items, text_val("error"));
            push_item(&mut items, text_val(x.error_type.as_str()));
            push_item(&mut items, text_val(x.message.as_str()));
            push_item(&mut items, text_val(x.component.as_str()));
            push_item(&mut items, CanonValue::Bool(x.recoverable));
    proof {
        assert(cv_view_list(items@)
            =~= spec_canon_error(*x)->List_0);
    }
    CanonValue::List(items)
}

/// The canonical form of this payload variant.
fn canon_snapshot(x: &SnapshotPayload) -> (r: CanonValue)
    ensures
        cv_view(r) == spec_canon_snapshot(*x),
{
    let mut items: Vec<CanonValue> = Vec::new();
    proof {
        assert(cv_view_list(items@) =~= Seq::<CanonData>::empty());
    }
            push_item(&mut items, text_val("snapshot"));
            push_item(&mut items, text_val(x.snapshot_id.as_str()));
            push_item(&mut items, CanonValue::U64(x.at_sequence));
            push_item(&mut items, blob_val(&x.state_hash));
            push_item(&mut items, CanonValue::U64(x.events_before));
    proof {
        assert(cv_view_list(items@)
            =~= spec_canon_snapshot(*x)->List_0);
    }
    CanonValue::List(items)
}

/// The canonical form of this payload variant.
fn canon_raw(m: &StrMap<String>) -> (r: CanonValue)
    ensures
        cv_view(r) == spec_canon_raw(*m),
{
    let mut items: Vec<CanonValue> = Vec::new();
    proof {
        assert(cv_view_list(items@) =~= Seq::<CanonData>::empty());
    }
            push_item(&mut items, text_val("raw"));
            push_item(&mut items, strmap_val(m));
    proof {
        assert(cv_view_list(items@)
            =~= spec_canon_raw(*m)->List_0);
    }
    CanonValue::List(items)
}

impl EventPayload {
    /// This payload in canonical form.
    pub fn to_canon(&self) -> (r: CanonValue)
        ensures
            cv_view(r) == spec_payload_canon(*self),
    {
        proof {
            reveal(spec_payload_canon);
        }
        match self {
            EventPayload::AgentInit(x) => canon_agent_init(x),
            EventPayload::StateTransition(x) => canon_state_transition(x),
            EventPayload::ToolRequest(x) => canon_tool_request(x),
            EventPayload::ToolResponse(x) => canon_tool_response(x),
            EventPayload::CapabilityDenied(x) => canon_capability_denied(x),
            EventPayload::Observation(x) => canon_observation(x),
            EventPayload::Decision(x) => canon_decision(x),
            EventPayload::MemoryWrite(x) => canon_memory_write(x),
            EventPayload::MemoryRead(x) => canon_memory_read(x),
            EventPayload::PatchProposal(x) => canon_patch_proposal(x),
            EventPayload::PatchApplied(x) => canon_patch_applied(x),
            EventPayload::PatchRejected(x) => canon_patch_rejected(x),
            EventPayload::Error(x) => canon_error(x),
            EventPayload::Snapshot(x) => canon_snapshot(x),
            EventPayload::Raw(m) => canon_raw(m),
        }
    }

    /// The hash of this payload's canonical bytes.
    pub fn hash(&self) -> (r: crate::hashes::Hash)
        ensures
            r@ == spec_payload_hash(*self),
    {
        let c = self.to_canon();
        crate::hashes::Hash::from_canonical(&c)
    }

    /// The event kind this payload belongs to.
    pub fn kind(&self) -> (r: EventKind)
        ensures
            match *self {
                EventPayload::Raw(_) => r matches EventKind::Custom(s) && s@ == "raw"@,
                _ => r == spec_payload_kind(*self),
            },
    {
        match self {
            EventPayload::AgentInit(_) => EventKind::AgentInit,
            EventPayload::StateTransition(_) => EventKind::StateTransition,
            EventPayload::ToolRequest(_) => EventKind::ToolRequest,
            EventPayload::ToolResponse(_) => EventKind::ToolResponse,
            EventPayload::CapabilityDenied(_) => EventKind::CapabilityDenied,
            EventPayload::Observation(_) => EventKind::Observation,
            EventPayload::Decision(_) => EventKind::Decision,
            EventPayload::MemoryWrite(_) => EventKind::MemoryWrite,
            EventPayload::MemoryRead(_) => EventKind::MemoryRead,
            EventPayload::PatchProposal(_) => EventKind::PatchProposal,
            EventPayload::PatchApplied(_) => EventKind::PatchApplied,
            EventPayload::PatchRejected(_) => EventKind::PatchRejected,
            EventPayload::Error(_) => EventKind::Error,
            EventPayload::Snapshot(_) => EventKind::Snapshot,
            EventPayload::Raw(_) => EventKind::Custom(String::from_str("raw")),
        }
    }
}

/// The event kind a payload belongs to.
pub open spec fn spec_payload_kind(p: EventPayload) -> EventKind {
    match p {
        EventPayload::AgentInit(_) => EventKind::AgentInit,
        EventPayload::StateTransition(_) => EventKind::StateTransition,
        EventPayload::ToolRequest(_) => EventKind::ToolRequest,
        EventPayload::ToolResponse(_) => EventKind::ToolResponse,
        EventPayload::CapabilityDenied(_) => EventKind::CapabilityDenied,
        EventPayload::Observation(_) => EventKind::Observation,
        EventPayload::Decision(_) => EventKind::Decision,
        EventPayload::MemoryWrite(_) => EventKind::MemoryWrite,
        EventPayload::MemoryRead(_) => EventKind::MemoryRead,
        EventPayload::PatchProposal(_) => EventKind::PatchProposal,
        EventPayload::PatchApplied(_) => EventKind::PatchApplied,
        EventPayload::PatchRejected(_) => EventKind::PatchRejected,
        EventPayload::Error(_) => EventKind::Error,
        EventPayload::Snapshot(_) => EventKind::Snapshot,
        EventPayload::Raw(_) => arbitrary(),
    }
}

/// One entry of the event log.
#[derive(Debug)]
pub struct Event {
    /// The unique event id.
    pub id: EventId,
    /// The causal parent, if any.
    pub parent_id: Option<EventId>,
    /// What kind of event this is.
    pub kind: EventKind,
    /// When it happened, logically.
    pub timestamp: LogicalTime,
    /// The payload.
    pub payload: EventPayload,
    /// The hash of the canonical payload.
    pub payload_hash: crate::hashes::Hash,
    /// The state hash before the event, if recorded.
    pub state_hash_before: Option<crate::hashes::Hash>,
    /// The state hash after the event, if recorded.
    pub state_hash_after: Option<crate::hashes::Hash>,
}

/// The canonical form of a whole event.
#[verifier::opaque]
pub open spec fn spec_event_canon(e: Event) -> CanonData {
    CanonData::List(seq![
        event_id_canon(e.id),
        match e.parent_id { Option::None => CanonData::Null, Option::Some(p) => event_id_canon(p) },
        text_of(kind_name(e.kind)),
        CanonData::List(seq![CanonData::U64(e.timestamp.run_id), CanonData::U64(e.timestamp.sequence)]),
        spec_payload_canon(e.payload),
        CanonData::Blob(e.payload_hash@),
        opt_blob_of(e.state_hash_before),
        opt_blob_of(e.state_hash_after),
    ])
}

/// The hash of an event's canonical bytes.
pub open spec fn spec_event_hash(e: Event) -> Seq<u8> {
    blake3_of(spec_encode(spec_event_canon(e)))
}

impl Event {
    /// An event without parent or state hashes; the payload hash is
    /// computed from the payload.
    pub fn new(id: EventId, kind: EventKind, timestamp: LogicalTime, payload: EventPayload)
        -> (r: Self)
        ensures
            r.id == id,
            r.parent_id is None,
            r.kind == kind,
            r.timestamp == timestamp,
            r.payload == payload,
            r.payload_hash@ == spec_payload_hash(payload),
            r.state_hash_before is None,
            r.state_hash_after is None,
    {
        let payload_hash = payload.hash();
        Event {
            id,
            parent_id: None,
            kind,
            timestamp,
            payload,
            payload_hash,
            state_hash_before: None,
            state_hash_after: None,
        }
    }

    /// An event with a causal parent.
    pub fn with_parent(
        id: EventId,
        parent_id: EventId,
        kind: EventKind,
        timestamp: LogicalTime,
        payload: EventPayload,
    ) -> (r: Self)
        ensures
            r.id == id,
            r.parent_id == Some(parent_id),
            r.kind == kind,
            r.timestamp == timestamp,
            r.payload == payload,
            r.payload_hash@ == spec_payload_hash(payload),
            r.state_hash_before is None,
            r.state_hash_after is None,
    {
        let payload_hash = payload.hash();
        Event {
            id,
            parent_id: Some(parent_id),
            kind,
            timestamp,
            payload,
            payload_hash,
            state_hash_before: None,
            state_hash_after: None,
        }
    }

    /// The same event, with state hashes recorded.
    pub fn with_state_hashes(self, before: crate::hashes::Hash, after: crate::hashes::Hash) -> (r: Self)
        ensures
            r.id == self.id,
            r.parent_id == self.parent_id,
            r.kind == self.kind,
            r.timestamp == self.timestamp,
            r.payload == self.payload,
            r.payload_hash == self.payload_hash,
            r.state_hash_before == Some(before),
            r.state_hash_after == Some(after),
    {
        Event {
            state_hash_before: Some(before),
            state_hash_after: Some(after),
            ..self
        }
    }

    /// The hash of the whole event in canonical form.
    pub fn event_hash(&self) -> (r: crate::hashes::Hash)
        ensures
            r@ == spec_event_hash(*self),
    {
        let mut items: Vec<CanonValue> = Vec::new();
        proof {
            assert(cv_view_list(items@) =~= Seq::<CanonData>::empty());
        }
        push_item(&mut items, id_val(&self.id));
        match &self.parent_id {
            Option::Some(p) => {
                push_item(&mut items, id_val(p));
            },
            Option::None => {
                push_item(&mut items, CanonValue::Null);
            },
        }
        push_item(&mut items, text_val(self.kind.as_str()));
        let mut ts: Vec<CanonValue> = Vec::new();
        proof {
            assert(cv_view_list(ts@) =~= Seq::<CanonData>::empty());
        }
        push_item(&mut ts, CanonValue::U64(self.timestamp.run_id));
        push_item(&mut ts, CanonValue::U64(self.timestamp.sequence));
        proof {
            assert(cv_view_list(ts@) =~= seq![CanonData::U64(self.timestamp.run_id),
                CanonData::U64(self.timestamp.sequence)]);
        }
        push_item(&mut items, CanonValue::List(ts));
        push_item(&mut items, self.payload.to_canon());
        push_item(&mut items, blob_val(&self.payload_hash));
        match &self.state_hash_before {
            Option::Some(h) => {
                push_item(&mut items, blob_val(h));
            },
            Option::None => {
                push_item(&mut items, CanonValue::Null);
            },
        }
        match &self.state_hash_after {
            Option::Some(h) => {
                push_item(&mut items, blob_val(h));
            },
            Option::None => {
                push_item(&mut items, CanonValue::Null);
            },
        }
        proof {
            reveal(spec_event_canon);
            assert(cv_view_list(items@) =~= spec_event_canon(*self)->List_0);
        }
        let c = CanonValue::List(items);
        crate::hashes::Hash::from_canonical(&c)
    }

    /// Whether the recorded payload hash matches the payload.
    pub fn verify_payload_hash(&self) -> (b: bool)
        ensures
            b == (self.payload_hash@ == spec_payload_hash(self.payload)),
    {
        let computed = self.payload.hash();
        self.payload_hash.eq(&computed)
    }

    /// Whether this event names the given event as its parent.
    pub fn follows(&self, parent: &EventId) -> (b: bool)
        ensures
            b == (self.parent_id == Some(*parent)),
    {
        match &self.parent_id {
            Option::Some(p) => p.run_id == parent.run_id && p.sequence == parent.sequence,
            Option::None => false,
        }
    }
}

/// A well-formed log: dense sequences in one run, parents resolving to
/// earlier events, and every payload hash matching its payload.
pub open spec fn log_wf(run_id: u64, events: Seq<Event>) -> bool {
    forall|i: int| 0 <= i < events.len() ==> {
        &&& (#[trigger] events[i]).id.run_id == run_id
        &&& events[i].id.sequence == i
        &&& (events[i].parent_id matches Some(p) ==> p.run_id == run_id && p.sequence < i)
        &&& events[i].payload_hash@ == spec_payload_hash(events[i].payload)
    }
}

/// The append-only event log of one run.
#[derive(Debug)]
pub struct EventLog {
    run_id: u64,
    events: Vec<Event>,
}

impl View for EventLog {
    type V = Seq<Event>;

    closed spec fn view(&self) -> Seq<Event> {
        self.events@
    }
}

impl EventLog {
    /// The run this log records.
    pub closed spec fn spec_run_id(&self) -> u64 {
        self.run_id
    }

    /// The run this log records.
    pub fn run_id(&self) -> (r: u64)
        ensures
            r == self.spec_run_id(),
    {
        self.run_id
    }

    /// The log is well formed: dense, parent-closed, hash-checked.
    pub open spec fn wf(&self) -> bool {
        log_wf(self.spec_run_id(), self@)
    }

    /// An empty log for a run.
    pub fn new(run_id: u64) -> (r: Self)
        ensures
            r.wf(),
            r.spec_run_id() == run_id,
            r@ == Seq::<Event>::empty(),
    {
        let r = EventLog { run_id, events: Vec::new() };
        proof {
            assert(r@ =~= Seq::<Event>::empty());
        }
        r
    }

    /// Appends an event, in order of checks: it must belong to this run,
    /// continue the dense sequence, name an indexed parent, and carry the
    /// hash of its payload. On any failure the log is unchanged.
    pub fn append(&mut self, event: Event) -> (r: Result<(), EventLogError>)
        requires
            old(self).wf(),
        ensures
            final(self).wf(),
            final(self).spec_run_id() == old(self).spec_run_id(),
            match r {
                Ok(()) => final(self)@ == old(self)@.push(event)
                    && event.id.run_id == old(self).spec_run_id()
                    && event.id.sequence == old(self)@.len()
                    && (event.parent_id matches Some(p) ==> p.run_id == old(self).spec_run_id()
                        && p.sequence < old(self)@.len())
                    && event.payload_hash@ == spec_payload_hash(event.payload),
                Err(EventLogError::CorruptedLog(_)) => final(self)@ == old(self)@
                    && (event.id.run_id != old(self).spec_run_id()
                        || event.id.sequence != old(self)@.len()),
                Err(EventLogError::ParentNotFound(_)) => final(self)@ == old(self)@
                    && event.id.run_id == old(self).spec_run_id()
                    && event.id.sequence == old(self)@.len()
                    && (event.parent_id matches Some(p)
                        && !(p.run_id == old(self).spec_run_id() && p.sequence < old(self)@.len())),
                Err(EventLogError::HashMismatch { .. }) => final(self)@ == old(self)@
                    && event.id.run_id == old(self).spec_run_id()
                    && event.id.sequence == old(self)@.len()
                    && (event.parent_id matches Some(p)
                        ==> p.run_id == old(self).spec_run_id()
                            && p.sequence < old(self)@.len())
                    && event.payload_hash@ != spec_payload_hash(event.payload),
                Err(EventLogError::InvalidEventId(_)) => false,
            },
    {
        if event.id.run_id != self.run_id {
            return Err(EventLogError::CorruptedLog(String::from_str(
                "event run does not match the log")));
        }
        let expected: usize = self.events.len();
        if !(event.id.sequence == expected as u64) {
            return Err(EventLogError::CorruptedLog(String::from_str(
                "event does not continue the sequence")));
        }
        match &event.parent_id {
            Option::Some(p) => {
                if p.run_id != self.run_id || p.sequence >= expected as u64 {
                    return Err(EventLogError::ParentNotFound(String::from_str(
                        "parent is not an earlier event of this run")));
                }
            },
            Option::None => {},
        }
        if !event.verify_payload_hash() {
            return Err(EventLogError::HashMismatch {
                expected: event.payload_hash.to_hex(),
                actual: event.payload.hash().to_hex(),
            });
        }
        self.events.push(event);
        proof {
            assert forall|i: int| 0 <= i < self@.len() implies {
                &&& (#[trigger] self@[i]).id.run_id == self.run_id
                &&& self@[i].id.sequence == i
                &&& (self@[i].parent_id matches Some(p) ==> p.run_id == self.run_id
                    && p.sequence < i)
                &&& self@[i].payload_hash@ == spec_payload_hash(self@[i].payload)
            } by {
                if i < self@.len() - 1 {
                    assert(self@[i] == old(self)@[i]);
                }
            }
        }
        Ok(())
    }

    /// The event with this id, if the log holds it.
    pub fn get(&self, id: EventId) -> (r: Option<&Event>)
        requires
            self.wf(),
        ensures
            match r {
                Some(e) => id.run_id == self.spec_run_id() && id.sequence < self@.len()
                    && *e == self@[id.sequence as int],
                None => !(id.run_id == self.spec_run_id() && id.sequence < self@.len()),
            },
    {
        if id.run_id != self.run_id {
            return None;
        }
        let n = self.events.len();
        if id.sequence >= n as u64 {
            return None;
        }
        let i = id.sequence as usize;
        Some(&self.events[i])
    }

    /// The event at a sequence position.
    pub fn get_by_sequence(&self, seq_no: u64) -> (r: Option<&Event>)
        ensures
            match r {
                Some(e) => seq_no < self@.len() && *e == self@[seq_no as int],
                None => seq_no >= self@.len(),
            },
    {
        let n = self.events.len();
        if seq_no >= n as u64 {
            return None;
        }
        let i = seq_no as usize;
        Some(&self.events[i])
    }

    /// The most recent event, if any.
    pub fn last(&self) -> (r: Option<&Event>)
        ensures
            match r {
                Some(e) => self@.len() > 0 && *e == self@[self@.len() - 1],
                None => self@.len() == 0,
            },
    {
        let n = self.events.len();
        if n == 0 {
            None
        } else {
            Some(&self.events[n - 1])
        }
    }

    /// All events, in order.
    pub fn events(&self) -> (r: &[Event])
        ensures
            r@ == self@,
    {
        self.events.as_slice()
    }

    /// How many events the log holds.
    pub fn len(&self) -> (n: usize)
        ensures
            n == self@.len(),
    {
        self.events.len()
    }

    /// Whether the log is empty.
    pub fn is_empty(&self) -> (b: bool)
        ensures
            b == (self@.len() == 0),
    {
        self.events.len() == 0
    }

    /// A snapshot of the log head.
    pub fn snapshot(&self) -> (r: EventLogSnapshot)
        ensures
            r.run_id == self.spec_run_id(),
            r.at_sequence == self@.len(),
            r.last_event_id == if self@.len() == 0 { Option::<EventId>::None } else {
                Option::Some(self@[self@.len() - 1].id)
            },
    {
        let n = self.events.len();
        let last_event_id = if n == 0 {
            None
        } else {
            Some(self.events[n - 1].id)
        };
        EventLogSnapshot { run_id: self.run_id, at_sequence: n as u64, last_event_id }
    }
}

/// Every accepted event of a well-formed log of length `n` has its position
/// as its sequence number: the sequences are exactly `0 .. n`.
pub proof fn lemma_dense_log(log: &EventLog)
    requires
        log.wf(),
    ensures
        forall|i: int| 0 <= i < log@.len() ==> (#[trigger] log@[i]).id.sequence == i
            && log@[i].id.run_id == log.spec_run_id(),
{
}

/// Every parent reference of a well-formed log resolves to an earlier event
/// of the same log.
pub proof fn lemma_parent_closure(log: &EventLog)
    requires
        log.wf(),
    ensures
        forall|i: int| 0 <= i < log@.len()
            ==> ((#[trigger] log@[i]).parent_id matches Some(p)
                ==> 0 <= p.sequence < i && log@[p.sequence as int].id == p),
{
    assert forall|i: int| 0 <= i < log@.len()
        implies ((#[trigger] log@[i]).parent_id matches Some(p)
            ==> 0 <= p.sequence < i && log@[p.sequence as int].id == p) by {
        if log@[i].parent_id is Some {
            let p = log@[i].parent_id->0;
            assert(log@[p.sequence as int].id.sequence == p.sequence);
            assert(log@[p.sequence as int].id.run_id == log.spec_run_id());
        }
    }
}

/// The head of a log at a moment: run, length, and last event id.
#[derive(Clone, Copy, Debug, PartialEq, Eq, Structural)]
pub struct EventLogSnapshot {
    /// The run the log records.
    pub run_id: u64,
    /// How many events were in the log.
    pub at_sequence: u64,
    /// The id of the last event, if any.
    pub last_event_id: Option<EventId>,
}

impl EventLogSnapshot {
    /// The snapshot of the given log.
    pub fn from_log(log: &EventLog) -> (r: Self)
        ensures
            r.run_id == log.spec_run_id(),
            r.at_sequence == log@.len(),
    {
        log.snapshot()
    }
}

} // verus!

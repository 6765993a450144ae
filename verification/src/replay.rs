//! The replay engine: reconstructs a state from an event log, verifies
//! recorded hashes, and reports the first positions where two logs
//! diverge. Replay is structural: it folds recorded hashes into the state
//! rather than re-running agents.

use vstd::prelude::*;
use vstd::string::StrSliceExecFns;
use vstd::string::StringExecFns;
use crate::event::{Event, EventId, EventLog, EventPayload, spec_event_hash, spec_payload_hash};
use crate::patches::{u64_text, u64_to_text};
use crate::state::{AgentState, StateData, StateValue};

verus! {

/// Replay errors.
#[derive(Clone, Debug, PartialEq, Eq)]
pub enum ReplayError {
    /// The log refused an operation.
    LogError(String),
    /// The state failed an integrity check.
    CorruptedState(String),
    /// The runs diverge.
    Divergence {
        /// Where they diverge.
        at: u64,
        /// The expected hash, in hex.
        expected: String,
        /// The hash found, in hex.
        actual: String,
    },
    /// The position is out of range.
    InvalidPosition(u64),
}

/// Replays one event log into a state.
#[derive(Debug)]
pub struct ReplayEngine {
    log: EventLog,
    current_state: AgentState,
    position: u64,
}

impl ReplayEngine {
    /// The log being replayed.
    pub closed spec fn spec_log(&self) -> Seq<Event> {
        self.log@
    }

    /// The state so far.
    pub closed spec fn spec_state(&self) -> AgentState {
        self.current_state
    }

    /// The next position to read.
    pub closed spec fn spec_position(&self) -> u64 {
        self.position
    }

    /// The engine's state container is well formed.
    pub open spec fn wf(&self) -> bool {
        self.spec_state().wf()
    }

    /// An engine over a log, starting from the empty state at position
    /// zero.
    pub fn new(log: EventLog) -> (r: Self)
        ensures
            r.wf(),
            r.spec_log() == log@,
            r.spec_position() == 0,
            r.spec_state().version == 0,
            r.spec_state().data.spec_map() == Map::<Seq<char>, StateData>::empty(),
    {
        ReplayEngine { log, current_state: AgentState::initial(), position: 0 }
    }

    /// An engine over a log, seeded with a state.
    pub fn with_state(log: EventLog, initial_state: AgentState) -> (r: Self)
        requires
            initial_state.wf(),
        ensures
            r.wf(),
            r.spec_log() == log@,
            r.spec_state() == initial_state,
            r.spec_position() == 0,
    {
        ReplayEngine { log, current_state: initial_state, position: 0 }
    }

    /// Replays one event: reads the event at the current position, folds it
    /// into the state, and advances. Returns the id of the event replayed,
    /// or nothing at the end of the log.
    #[verifier::rlimit(100)]
    #[verifier::spinoff_prover]
    pub fn step(&mut self) -> (r: Option<EventId>)
        requires
            old(self).wf(),
        ensures
            final(self).wf(),
            final(self).spec_log() == old(self).spec_log(),
            match r {
                Some(id) => old(self).spec_position() < old(self).spec_log().len()
                    && id == old(self).spec_log()[old(self).spec_position() as int].id
                    && final(self).spec_position() == old(self).spec_position() + 1
                    && ({
                        let e = old(self).spec_log()[old(self).spec_position() as int];
                        let st = old(self).spec_state();
                        if e.payload is StateTransition {
                            let base = if e.state_hash_before matches Some(b)
                                && b@ != st.state_hash@ {
                                Map::<Seq<char>, StateData>::empty().insert("system"@,
                                    StateData::Value(StateValue::U64(e.id.run_id)))
                            } else {
                                st.data.spec_map()
                            };
                            match e.state_hash_after {
                                Some(a) => final(self).spec_state().data.spec_map()
                                        .dom() == base.dom().insert("_event_hash"@)
                                    && (final(self).spec_state().data
                                        .spec_map()["_event_hash"@]
                                        matches StateData::Value(StateValue::Hash(h))
                                        && h@ == a@)
                                    && (forall|k: Seq<char>| k != "_event_hash"@
                                        && base.dom().contains(k)
                                        ==> final(self).spec_state().data.spec_map()[k]
                                            == base[k]),
                                None => final(self).spec_state().data.spec_map()
                                    == base,
                            }
                        } else {
                            let key = "event_"@ + u64_text(e.id.sequence);
                            final(self).spec_state().data.spec_map().dom()
                                    == st.data.spec_map().dom().insert(key)
                                && (final(self).spec_state().data.spec_map()[key]
                                    matches StateData::Value(StateValue::Hash(h))
                                    && h@ == spec_event_hash(e))
                                && (forall|k: Seq<char>| k != key
                                    && st.data.spec_map().dom().contains(k)
                                    ==> final(self).spec_state().data.spec_map()[k]
                                        == st.data.spec_map()[k])
                        }
                    }),
                None => old(self).spec_position() >= old(self).spec_log().len()
                    && *final(self) == *old(self),
            },
    {
        let (id, is_transition, before, after, ehash, run_id, seq_no) = match
            self.log.get_by_sequence(self.position) {
            Option::Some(event) => {
                let is_t = matches!(event.payload, EventPayload::StateTransition(_));
                let before = match &event.state_hash_before {
                    Option::Some(h) => Some(h.clone()),
                    Option::None => None,
                };
                let after = match &event.state_hash_after {
                    Option::Some(h) => Some(h.clone()),
                    Option::None => None,
                };
                let ehash = event.event_hash();
                (event.id, is_t, before, after, ehash, event.id.run_id, event.id.sequence)
            },
            Option::None => {
                return None;
            },
        };
        if is_transition {
            ReplayEngine::apply_transition_inner(&mut self.current_state, before, after, run_id);
        } else {
            ReplayEngine::apply_other_inner(&mut self.current_state, seq_no, ehash);
        }
        let n = self.log.len();
        if self.position < n as u64 {
            self.position = self.position + 1;
        }
        Some(id)
    }

    /// Folds a recorded state transition into the state: with a recorded
    /// before-hash that does not match, the state restarts from a fresh one
    /// carrying the run id; a recorded after-hash is written under
    /// `_event_hash`.
    #[verifier::rlimit(60)]
    #[verifier::spinoff_prover]
    fn apply_transition_inner(state: &mut AgentState, before: Option<crate::hashes::Hash>,
        after: Option<crate::hashes::Hash>, run_id: u64)
        requires
            old(state).wf(),
        ensures
            final(state).wf(),
            ({
                let base = if before matches Option::Some(b)
                    && b@ != old(state).state_hash@ {
                    Map::<Seq<char>, StateData>::empty()
                        .insert("system"@, StateData::Value(StateValue::U64(run_id)))
                } else {
                    old(state).data.spec_map()
                };
                match after {
                    Option::Some(a) => final(state).data.spec_map()
                        == base.insert("_event_hash"@,
                            StateData::Value(StateValue::Hash(a))),
                    Option::None => final(state).data.spec_map() == base,
                }
            }),
    {
        match before {
            Option::Some(b) => {
                let cur = state.hash();
                if !cur.eq(&b) {
                    *state = AgentState::with_run_id(run_id);
                }
            },
            Option::None => {},
        }
        match after {
            Option::Some(a) => {
                state.set("_event_hash", StateData::Value(StateValue::Hash(a)));
            },
            Option::None => {},
        }
    }

    /// Folds any other recorded event into the state: its hash is written
    /// under a key carrying its sequence number.
    #[verifier::rlimit(60)]
    #[verifier::spinoff_prover]
    fn apply_other_inner(state: &mut AgentState, seq_no: u64, ehash: crate::hashes::Hash)
        requires
            old(state).wf(),
        ensures
            final(state).wf(),
            final(state).data.spec_map() == old(state).data.spec_map()
                .insert("event_"@ + u64_text(seq_no),
                    StateData::Value(StateValue::Hash(ehash))),
    {
        let key = String::from_str("event_").concat(u64_to_text(seq_no).as_str());
        state.set(key.as_str(), StateData::Value(StateValue::Hash(ehash)));
    }

    /// Replays from the start position to the end of the log and reports
    /// the hash of the state reached.
    pub fn replay_all(&mut self) -> (r: Result<crate::hashes::Hash, ReplayError>)
        requires
            old(self).wf(),
        ensures
            final(self).wf(),
            final(self).spec_log() == old(self).spec_log(),
            final(self).spec_position() >= final(self).spec_log().len(),
            r matches Ok(h) && h@ == final(self).spec_state().state_hash@,
    {
        loop
            invariant
                self.wf(),
                self.spec_log() == old(self).spec_log(),
            ensures
                self.wf(),
                self.spec_log() == old(self).spec_log(),
                self.spec_position() >= self.spec_log().len(),
            decreases self.spec_log().len() - self.spec_position(),
        {
            let stepped = self.step();
            if stepped.is_none() {
                break;
            }
        }
        Ok(self.current_state.hash())
    }

    /// Moves to a position and replays to the end.
    pub fn replay_from(&mut self, position: u64) -> (r: Result<crate::hashes::Hash, ReplayError>)
        requires
            old(self).wf(),
        ensures
            final(self).wf(),
            r matches Ok(h) && h@ == final(self).spec_state().state_hash@,
    {
        self.position = position;
        self.replay_all()
    }

    /// The state reached so far.
    pub fn current_state(&self) -> (r: &AgentState)
        ensures
            *r == self.spec_state(),
    {
        &self.current_state
    }

    /// The next position to read.
    pub fn position(&self) -> (r: u64)
        ensures
            r == self.spec_position(),
    {
        self.position
    }

    /// Whether the whole log has been replayed.
    pub fn is_complete(&self) -> (b: bool)
        ensures
            b == (self.spec_position() >= self.spec_log().len()),
    {
        let n = self.log.len();
        self.position >= n as u64
    }

    /// Compares this engine's log with another's, position by position:
    /// events whose hashes differ yield divergence points; when one log is
    /// shorter, a final length-mismatch point is reported and comparison
    /// stops.
    pub fn detect_divergence(&self, other: &ReplayEngine) -> (r: Vec<DivergencePoint>)
        ensures
            (self.spec_log().len() == other.spec_log().len()
                && forall|i: int| 0 <= i < self.spec_log().len()
                    ==> spec_event_hash(#[trigger] self.spec_log()[i])
                        == spec_event_hash(other.spec_log()[i]))
                ==> r@.len() == 0,
            forall|k1: int, k2: int| 0 <= k1 < k2 < r@.len()
                ==> ((#[trigger] r@[k1]).position as int)
                    < ((#[trigger] r@[k2]).position as int),
            ({
                let m = if self.spec_log().len() <= other.spec_log().len() {
                    self.spec_log().len() as int
                } else {
                    other.spec_log().len() as int
                };
                &&& forall|p: int| 0 <= p < m
                    && spec_event_hash(self.spec_log()[p])
                        != spec_event_hash(other.spec_log()[p])
                    ==> #[trigger] div_found(r@, p)
                &&& forall|k: int| 0 <= k < r@.len()
                    ==> ((#[trigger] r@[k]).position as int) <= m
                &&& forall|k: int| 0 <= k < r@.len()
                    && ((#[trigger] r@[k]).position as int) < m
                    ==> spec_event_hash(self.spec_log()[r@[k].position as int])
                        != spec_event_hash(other.spec_log()[r@[k].position as int])
                &&& (self.spec_log().len() != other.spec_log().len())
                    == (r@.len() > 0 && ((r@[r@.len() - 1].position) as int) == m)
            }),
    {
        let mut divergences: Vec<DivergencePoint> = Vec::new();
        let evs1 = self.log.events();
        let evs2 = other.log.events();
        let n1 = evs1.len();
        let n2 = evs2.len();
        let mut pos: usize = 0;
        while pos < n1 && pos < n2
            invariant
                evs1@ == self.spec_log(),
                evs2@ == other.spec_log(),
                n1 == self.spec_log().len(),
                n2 == other.spec_log().len(),
                pos <= n1,
                pos <= n2,
                (forall|i: int| 0 <= i < pos
                    ==> spec_event_hash(#[trigger] self.spec_log()[i])
                        == spec_event_hash(other.spec_log()[i]))
                    ==> divergences@.len() == 0,
                forall|k1: int, k2: int| 0 <= k1 < k2 < divergences@.len()
                    ==> ((#[trigger] divergences@[k1]).position as int)
                        < ((#[trigger] divergences@[k2]).position as int),
                forall|k: int| 0 <= k < divergences@.len()
                    ==> ((#[trigger] divergences@[k]).position as int) < pos,
                forall|k: int| 0 <= k < divergences@.len()
                    ==> spec_event_hash(
                            self.spec_log()[(#[trigger] divergences@[k]).position as int])
                        != spec_event_hash(
                            other.spec_log()[divergences@[k].position as int]),
                forall|p: int| 0 <= p < pos
                    && spec_event_hash(self.spec_log()[p])
                        != spec_event_hash(other.spec_log()[p])
                    ==> #[trigger] div_found(divergences@, p),
            decreases n1 - pos,
        {
            let e1 = &evs1[pos];
            let e2 = &evs2[pos];
            let h1 = e1.event_hash();
            let h2 = e2.event_hash();
            if !h1.eq(&h2) {
                let diff = diff_events(e1, e2);
                let ghost dbefore = divergences@;
                divergences.push(DivergencePoint {
                    position: pos as u64,
                    event_id: e1.id,
                    expected: h1,
                    actual: h2,
                    diff,
                });
                proof {
                    assert(divergences@[divergences@.len() - 1].position == pos as u64);
                    assert forall|p: int| 0 <= p < pos + 1
                        && spec_event_hash(self.spec_log()[p])
                            != spec_event_hash(other.spec_log()[p])
                        implies #[trigger] div_found(divergences@, p) by {
                        if p < pos {
                            assert(div_found(dbefore, p));
                            let k = choose|k: int| 0 <= k < dbefore.len()
                                && ((#[trigger] dbefore[k]).position as int) == p;
                            assert(divergences@[k] == dbefore[k]);
                        } else {
                            assert((divergences@[divergences@.len() - 1].position
                                as int) == p);
                        }
                    }
                }
            } else {
                proof {
                    assert forall|p: int| 0 <= p < pos + 1
                        && spec_event_hash(self.spec_log()[p])
                            != spec_event_hash(other.spec_log()[p])
                        implies #[trigger] div_found(divergences@, p) by {
                        if p < pos {
                            assert(div_found(divergences@, p));
                        }
                    }
                }
            }
            pos += 1;
        }
        let ghost m: int = if n1 <= n2 { n1 as int } else { n2 as int };
        proof {
            assert(pos == m);
        }
        if pos < n1 || pos < n2 {
            let ghost dbefore = divergences@;
            divergences.push(DivergencePoint {
                position: pos as u64,
                event_id: EventId::new(0, pos as u64),
                expected: crate::hashes::Hash::zero(),
                actual: crate::hashes::Hash::zero(),
                diff: String::from_str("the logs have different lengths"),
            });
            proof {
                assert(divergences@[divergences@.len() - 1].position == pos as u64);
                assert forall|p: int| 0 <= p < m
                    && spec_event_hash(self.spec_log()[p])
                        != spec_event_hash(other.spec_log()[p])
                    implies #[trigger] div_found(divergences@, p) by {
                    assert(div_found(dbefore, p));
                    let k = choose|k: int| 0 <= k < dbefore.len()
                        && ((#[trigger] dbefore[k]).position as int) == p;
                    assert(divergences@[k] == dbefore[k]);
                }
            }
        }
        proof {
            if self.spec_log().len() == other.spec_log().len()
                && (forall|i: int| 0 <= i < self.spec_log().len()
                    ==> spec_event_hash(#[trigger] self.spec_log()[i])
                        == spec_event_hash(other.spec_log()[i])) {
                assert(forall|i: int| 0 <= i < pos
                    ==> spec_event_hash(#[trigger] self.spec_log()[i])
                        == spec_event_hash(other.spec_log()[i]));
                assert(divergences@.len() == 0);
            }
        }
        divergences
    }

    /// Checks every recorded payload hash against its payload.
    pub fn verify(&self) -> (r: Result<VerificationReport, ReplayError>)
        ensures
            r is Ok,
            r matches Ok(rep) ==> {
                &&& rep.total_events == self.spec_log().len()
                &&& rep.verified_events + rep.hash_failures == rep.total_events
                &&& rep.state_mismatches == 0
                &&& rep.hash_failures
                    == mismatch_count(self.spec_log(), self.spec_log().len() as int)
                &&& ((rep.hash_failures == 0) == (forall|i: int| 0 <= i < self.spec_log().len()
                    ==> (#[trigger] self.spec_log()[i]).payload_hash@
                        == spec_payload_hash(self.spec_log()[i].payload)))
            },
    {
        let evs = self.log.events();
        let n = evs.len();
        let mut verified: usize = 0;
        let mut failures: usize = 0;
        let mut i: usize = 0;
        while i < n
            invariant
                evs@ == self.spec_log(),
                n == self.spec_log().len(),
                i <= n,
                verified + failures == i,
                failures == mismatch_count(self.spec_log(), i as int),
                (failures == 0) == (forall|j: int| 0 <= j < i
                    ==> (#[trigger] self.spec_log()[j]).payload_hash@
                        == spec_payload_hash(self.spec_log()[j].payload)),
            decreases n - i,
        {
            let e = &evs[i];
            if e.verify_payload_hash() {
                verified = verified + 1;
            } else {
                failures = failures + 1;
            }
            i += 1;
        }
        Ok(VerificationReport {
            total_events: n,
            verified_events: verified,
            hash_failures: failures,
            state_mismatches: 0,
        })
    }
}

/// How many events of the first `i` carry a payload hash that does not
/// match their payload.
pub open spec fn mismatch_count(log: Seq<Event>, i: int) -> int
    decreases i,
{
    if i <= 0 {
        0
    } else {
        mismatch_count(log, i - 1)
            + if log[i - 1].payload_hash@ != spec_payload_hash(log[i - 1].payload) {
                1int
            } else {
                0int
            }
    }
}

/// A short description of how two events differ: differing kinds are named
/// first, then differing payload hashes, else the envelopes.
fn diff_events(e1: &Event, e2: &Event) -> (r: String)
    ensures
        crate::event::kind_name(e1.kind) != crate::event::kind_name(e2.kind)
            ==> r@ == "the kinds differ"@,
        (crate::event::kind_name(e1.kind) == crate::event::kind_name(e2.kind)
            && e1.payload_hash@ != e2.payload_hash@)
            ==> r@ == "the payloads differ"@,
        (crate::event::kind_name(e1.kind) == crate::event::kind_name(e2.kind)
            && e1.payload_hash@ == e2.payload_hash@)
            ==> r@ == "the envelopes differ"@,
{
    let k1 = e1.kind.as_str();
    let k2 = e2.kind.as_str();
    if !crate::order::str_eq(k1, k2) {
        return String::from_str("the kinds differ");
    }
    if !e1.payload_hash.eq(&e2.payload_hash) {
        return String::from_str("the payloads differ");
    }
    String::from_str("the envelopes differ")
}

/// Whether some divergence point reports the position.
pub open spec fn div_found(pts: Seq<DivergencePoint>, p: int) -> bool {
    exists|k: int| 0 <= k < pts.len() && ((#[trigger] pts[k]).position as int) == p
}

/// Where two runs diverge.
#[derive(Debug)]
pub struct DivergencePoint {
    /// The position in the logs.
    pub position: u64,
    /// The id of the event there.
    pub event_id: EventId,
    /// The hash this engine's log carries.
    pub expected: crate::hashes::Hash,
    /// The hash the other log carries.
    pub actual: crate::hashes::Hash,
    /// What differs, in words.
    pub diff: String,
}

/// What a verification pass found.
#[derive(Clone, Copy, Debug, PartialEq, Eq, Structural)]
pub struct VerificationReport {
    /// How many events the log holds.
    pub total_events: usize,
    /// How many verified.
    pub verified_events: usize,
    /// How many carried a wrong payload hash.
    pub hash_failures: usize,
    /// How many states disagreed.
    pub state_mismatches: usize,
}

impl VerificationReport {
    /// Whether everything verified.
    pub fn is_valid(&self) -> (b: bool)
        ensures
            b == (self.hash_failures == 0 && self.state_mismatches == 0),
    {
        self.hash_failures == 0 && self.state_mismatches == 0
    }
}

/// A recorded point to resume replay from.
#[derive(Debug)]
pub struct Snapshot {
    /// The snapshot id.
    pub id: String,
    /// The run it belongs to.
    pub run_id: u64,
    /// The position in the log.
    pub position: u64,
    /// The state at that point.
    pub state: AgentState,
    /// The state's hash.
    pub state_hash: crate::hashes::Hash,
    /// The hash of the event at the position.
    pub event_hash: crate::hashes::Hash,
}

impl Snapshot {
    /// A snapshot of a state at a position; the hash is taken from the
    /// state.
    pub fn new(id: &str, run_id: u64, position: u64, state: AgentState) -> (r: Self)
        ensures
            r.id@ == id@,
            r.run_id == run_id,
            r.position == position,
            r.state == state,
            r.state_hash@ == state.state_hash@,
            r.event_hash@ == crate::hashes::zero_hash(),
    {
        let state_hash = state.hash();
        Snapshot {
            id: String::from_str(id),
            run_id,
            position,
            state,
            state_hash,
            event_hash: crate::hashes::Hash::zero(),
        }
    }

    /// Whether the recorded hash still matches the state.
    pub fn verify(&self) -> (b: bool)
        ensures
            b == (self.state_hash@ == self.state.state_hash@),
    {
        self.state_hash.eq(&self.state.state_hash)
    }
}

/// Whether the sequence holds the snapshot.
pub open spec fn snap_in(s: Seq<Snapshot>, x: Snapshot) -> bool {
    exists|i: int| 0 <= i < s.len() && s[i] == x
}

/// Snapshots indexed by position.
#[derive(Debug)]
pub struct SnapshotManager {
    snapshots: Vec<Snapshot>,
}

impl SnapshotManager {
    /// The held snapshots, in arrival order.
    pub closed spec fn spec_snapshots(&self) -> Seq<Snapshot> {
        self.snapshots@
    }

    /// An empty manager.
    pub fn new() -> (r: Self)
        ensures
            r.spec_snapshots().len() == 0,
    {
        SnapshotManager { snapshots: Vec::new() }
    }

    /// Adds a snapshot; an earlier one at the same position is replaced,
    /// and every snapshot at another position is kept.
    pub fn add(&mut self, snapshot: Snapshot)
        ensures
            final(self).spec_snapshots().len() >= 1,
            final(self).spec_snapshots().last() == snapshot,
            forall|i: int| 0 <= i < final(self).spec_snapshots().len() - 1
                ==> snap_in(old(self).spec_snapshots(),
                    #[trigger] final(self).spec_snapshots()[i]),
            forall|j: int| 0 <= j < old(self).spec_snapshots().len()
                && (#[trigger] old(self).spec_snapshots()[j]).position
                    != snapshot.position
                ==> snap_in(final(self).spec_snapshots(),
                    old(self).spec_snapshots()[j]),
    {
        let n = self.snapshots.len();
        let mut i: usize = 0;
        let mut found: Option<usize> = None;
        while i < n
            invariant
                n == self.spec_snapshots().len(),
                self.spec_snapshots() == old(self).spec_snapshots(),
                i <= n,
                found matches Some(k) ==> k < n
                    && self.spec_snapshots()[k as int].position == snapshot.position,
            decreases n - i,
        {
            if self.snapshots[i].position == snapshot.position {
                found = Some(i);
            }
            i += 1;
        }
        let ghost before = self.spec_snapshots();
        match found {
            Option::Some(k) => {
                let _ = self.snapshots.remove(k);
                let ghost gk = k as int;
                proof {
                    assert(self.spec_snapshots()
                        == before.remove(gk));
                    assert forall|j: int| 0 <= j < before.len()
                        && (#[trigger] before[j]).position != snapshot.position
                        implies snap_in(self.spec_snapshots(), before[j]) by {
                        if j < gk {
                            assert(self.spec_snapshots()[j] == before[j]);
                        } else {
                            assert(j != gk);
                            assert(self.spec_snapshots()[j - 1] == before[j]);
                        }
                    }
                    assert forall|i2: int| 0 <= i2 < self.spec_snapshots().len()
                        implies snap_in(before, #[trigger] self.spec_snapshots()[i2])
                        by {
                        if i2 < gk {
                            assert(before[i2] == self.spec_snapshots()[i2]);
                        } else {
                            assert(before[i2 + 1] == self.spec_snapshots()[i2]);
                        }
                    }
                }
            },
            Option::None => {},
        }
        let ghost mid = self.spec_snapshots();
        self.snapshots.push(snapshot);
        proof {
            assert forall|i2: int| 0 <= i2 < self.spec_snapshots().len() - 1
                implies snap_in(before, #[trigger] self.spec_snapshots()[i2]) by {
                assert(self.spec_snapshots()[i2] == mid[i2]);
                if found is None {
                    assert(mid == before);
                    assert(before[i2] == self.spec_snapshots()[i2]);
                }
            }
            assert forall|j: int| 0 <= j < before.len()
                && (#[trigger] before[j]).position != snapshot.position
                implies snap_in(self.spec_snapshots(), before[j]) by {
                if found is Some {
                    let i2 = choose|i2: int| 0 <= i2 < mid.len()
                        && mid[i2] == before[j];
                    assert(self.spec_snapshots()[i2] == before[j]);
                } else {
                    assert(self.spec_snapshots()[j] == before[j]);
                }
            }
        }
    }

    /// The latest snapshot at or before a position, if any.
    pub fn get_snapshot_before(&self, position: u64) -> (r: Option<&Snapshot>)
        ensures
            match r {
                Some(s) => s.position <= position
                    && snap_in(self.spec_snapshots(), *s)
                    && forall|i: int| 0 <= i < self.spec_snapshots().len()
                        && (#[trigger] self.spec_snapshots()[i]).position <= position
                        ==> self.spec_snapshots()[i].position <= s.position,
                None => forall|i: int| 0 <= i < self.spec_snapshots().len()
                    ==> (#[trigger] self.spec_snapshots()[i]).position > position,
            },
    {
        let n = self.snapshots.len();
        let mut best: Option<usize> = None;
        let mut i: usize = 0;
        while i < n
            invariant
                n == self.spec_snapshots().len(),
                i <= n,
                match best {
                    Some(k) => k < n && self.spec_snapshots()[k as int].position <= position
                        && forall|j: int| 0 <= j < i
                            && (#[trigger] self.spec_snapshots()[j]).position <= position
                            ==> self.spec_snapshots()[j].position
                                <= self.spec_snapshots()[k as int].position,
                    None => forall|j: int| 0 <= j < i
                        ==> (#[trigger] self.spec_snapshots()[j]).position > position,
                },
            decreases n - i,
        {
            if self.snapshots[i].position <= position {
                match best {
                    Option::Some(k) => {
                        if self.snapshots[i].position >= self.snapshots[k].position {
                            best = Some(i);
                        }
                    },
                    Option::None => {
                        best = Some(i);
                    },
                }
            }
            i += 1;
        }
        match best {
            Option::Some(k) => Some(&self.snapshots[k]),
            Option::None => None,
        }
    }

    /// The snapshot exactly at a position, if any.
    pub fn get(&self, position: u64) -> (r: Option<&Snapshot>)
        ensures
            r matches Some(s) ==> s.position == position
                && snap_in(self.spec_snapshots(), *s),
            r is None ==> forall|i: int| 0 <= i < self.spec_snapshots().len()
                ==> (#[trigger] self.spec_snapshots()[i]).position != position,
    {
        let n = self.snapshots.len();
        let mut i: usize = 0;
        while i < n
            invariant
                n == self.spec_snapshots().len(),
                i <= n,
                forall|j: int| 0 <= j < i
                    ==> (#[trigger] self.spec_snapshots()[j]).position != position,
            decreases n - i,
        {
            if self.snapshots[i].position == position {
                return Some(&self.snapshots[i]);
            }
            i += 1;
        }
        None
    }

    /// The held positions, in arrival order.
    pub fn positions(&self) -> (r: Vec<u64>)
        ensures
            r@.len() == self.spec_snapshots().len(),
            forall|i: int| 0 <= i < r@.len()
                ==> r@[i] == (#[trigger] self.spec_snapshots()[i]).position,
    {
        let n = self.snapshots.len();
        let mut out: Vec<u64> = Vec::new();
        let mut i: usize = 0;
        while i < n
            invariant
                n == self.spec_snapshots().len(),
                i <= n,
                out@.len() == i,
                forall|j: int| 0 <= j < i
                    ==> out@[j] == (#[trigger] self.spec_snapshots()[j]).position,
            decreases n - i,
        {
            out.push(self.snapshots[i].position);
            i += 1;
        }
        out
    }
}

} // verus!

//! The topological scheduler: dispatches DAG nodes whose dependencies are
//! complete, holding no more than the concurrency cap in flight. Every node
//! sits in exactly one of three places — ready, running, or pending — so
//! each is dispatched exactly once and each `complete` retires exactly one.

use vstd::prelude::*;
use vstd::string::StrSliceExecFns;
use crate::dag::{Dag, has_incoming, id_found, is_dep_of, node_named};
use crate::order::str_eq;

verus! {

/// Execution errors the scheduler reports.
#[derive(Clone, Debug, PartialEq, Eq)]
pub enum ExecError {
    /// A capability was refused.
    CapabilityDenied {
        /// The capability asked for.
        capability: String,
        /// Why it was refused.
        reason: String,
    },
    /// No such tool is registered.
    ToolNotFound(String),
    /// A node ran out of time.
    Timeout {
        /// The node that timed out.
        node: String,
        /// How long it ran, in milliseconds.
        duration_ms: u64,
    },
    /// A node failed.
    Failed {
        /// The node that failed.
        node: String,
        /// Why it failed.
        reason: String,
    },
    /// A node exceeded a resource limit.
    ResourceExceeded {
        /// The node that exceeded it.
        node: String,
        /// The limit exceeded.
        limit: String,
    },
    /// The scheduler state is inconsistent.
    InvalidState(String),
}

/// A task in flight.
#[derive(Debug)]
pub struct RunningTask {
    /// The node being run.
    pub node_id: String,
    /// When it started, logically.
    pub start_time: u64,
}

impl RunningTask {
    /// A task record.
    pub fn new(node_id: &str, start_time: u64) -> (r: Self)
        ensures
            r.node_id@ == node_id@,
            r.start_time == start_time,
    {
        RunningTask { node_id: String::from_str(node_id), start_time }
    }
}

/// Whether some pending entry carries the id.
pub open spec fn pend_found(p: Seq<(String, Vec<String>)>, x: Seq<char>) -> bool {
    exists|idx: int| 0 <= idx < p.len() && (#[trigger] p[idx]).0@ == x
}

/// Whether every listed dependency is the named id: removing that id
/// empties the list.
pub open spec fn deps_all_named(deps: Seq<String>, nid: Seq<char>) -> bool {
    forall|j: int| 0 <= j < deps.len() ==> (#[trigger] deps[j])@ == nid
}

/// Whether one pending entry is another with the named id struck from its
/// dependency list: the same node, and its list holds exactly the other
/// list's ids except that one.
pub open spec fn entry_filtered(
    a: (String, Vec<String>),
    b: (String, Vec<String>),
    nid: Seq<char>,
) -> bool {
    a.0@ == b.0@
        && forall|y: Seq<char>| #[trigger] id_found(a.1@, y)
            == (id_found(b.1@, y) && y != nid)
}

/// Whether the entry is some entry of the list with the named id struck
/// from its dependency list.
pub open spec fn entry_refined(
    e: (String, Vec<String>),
    op: Seq<(String, Vec<String>)>,
    nid: Seq<char>,
) -> bool {
    exists|idx: int| 0 <= idx < op.len() && entry_filtered(e, #[trigger] op[idx], nid)
}

/// Whether every entry of the new pending list is an entry of the old one
/// with the named id struck from its dependency list.
pub open spec fn pending_filtered(
    np: Seq<(String, Vec<String>)>,
    op: Seq<(String, Vec<String>)>,
    nid: Seq<char>,
) -> bool {
    forall|idx2: int| 0 <= idx2 < np.len()
        ==> entry_refined(#[trigger] np[idx2], op, nid)
}

/// The scheduler: a ready queue, a pending map and the set in flight.
#[derive(Debug)]
pub struct Scheduler {
    ready: Vec<String>,
    pending: Vec<(String, Vec<String>)>,
    running: Vec<String>,
    tasks: Vec<RunningTask>,
    max_concurrent: usize,
}

impl Scheduler {
    /// The ids waiting to be dispatched, in order.
    pub closed spec fn spec_ready(&self) -> Seq<String> {
        self.ready@
    }

    /// The ids waiting on dependencies, each with its remaining
    /// dependencies.
    pub closed spec fn spec_pending(&self) -> Seq<(String, Vec<String>)> {
        self.pending@
    }

    /// The ids dispatched and not yet complete.
    pub closed spec fn spec_running(&self) -> Seq<String> {
        self.running@
    }

    /// The concurrency cap.
    pub closed spec fn spec_max_concurrent(&self) -> nat {
        self.max_concurrent as nat
    }

    /// How many nodes remain anywhere in the scheduler.
    pub open spec fn remaining(&self) -> nat {
        self.spec_ready().len() + self.spec_running().len() + self.spec_pending().len()
    }

    /// A scheduler with the given concurrency cap and nothing to do.
    pub fn new(max_concurrent: usize) -> (r: Self)
        ensures
            r.spec_ready().len() == 0,
            r.spec_pending().len() == 0,
            r.spec_running().len() == 0,
            r.spec_max_concurrent() == max_concurrent,
            r.remaining() == 0,
    {
        Scheduler {
            ready: Vec::new(),
            pending: Vec::new(),
            running: Vec::new(),
            tasks: Vec::new(),
            max_concurrent,
        }
    }

    /// Seeds the scheduler from a DAG: it always succeeds on a well-formed
    /// DAG, nothing runs, the ready queue holds exactly the ids of nodes
    /// without incoming edges — in topological order — and every other
    /// node waits in pending with exactly its dependency ids. Everything
    /// previously held is dropped.
    pub fn initialize(&mut self, dag: &Dag) -> (r: Result<(), ExecError>)
        requires
            dag.wf(),
        ensures
            final(self).spec_max_concurrent() == old(self).spec_max_concurrent(),
            r is Ok,
            final(self).spec_running().len() == 0,
            final(self).remaining() == dag.spec_nodes().len(),
            forall|x: Seq<char>| id_found(final(self).spec_ready(), x)
                == (node_named(dag.spec_nodes(), x)
                    && !has_incoming(dag.spec_nodes(), dag.spec_edges(), x)),
            forall|x: Seq<char>| pend_found(final(self).spec_pending(), x)
                == (node_named(dag.spec_nodes(), x)
                    && has_incoming(dag.spec_nodes(), dag.spec_edges(), x)),
            forall|idx: int| 0 <= idx < final(self).spec_pending().len()
                ==> forall|y: Seq<char>|
                    id_found((#[trigger] final(self).spec_pending()[idx]).1@, y)
                        == is_dep_of(dag.spec_nodes(), dag.spec_edges(),
                            final(self).spec_pending()[idx].0@, y),
    {
        let order = match dag.topological_order() {
            Ok(o) => o,
            Err(_) => {
                proof {
                    assert(false);
                }
                return Err(ExecError::InvalidState(String::from_str(
                    "the graph is not acyclic")));
            },
        };
        self.ready = Vec::new();
        self.pending = Vec::new();
        self.running = Vec::new();
        self.tasks = Vec::new();
        let n = order.len();
        let mut i: usize = 0;
        while i < n
            invariant
                dag.wf(),
                n == order@.len(),
                n == dag.spec_nodes().len(),
                crate::dag::covers(order@, dag.spec_nodes()),
                forall|t: int| 0 <= t < n
                    ==> node_named(dag.spec_nodes(), (#[trigger] order@[t])@),
                forall|a: int, b: int| 0 <= a < b < n
                    ==> (#[trigger] order@[a])@ != (#[trigger] order@[b])@,
                i <= n,
                self.spec_running().len() == 0,
                self.spec_ready().len() + self.spec_pending().len() == i,
                self.spec_max_concurrent() == old(self).spec_max_concurrent(),
                forall|x: Seq<char>| #[trigger] id_found(self.spec_ready(), x)
                    ==> node_named(dag.spec_nodes(), x)
                        && !has_incoming(dag.spec_nodes(), dag.spec_edges(), x),
                forall|x: Seq<char>| #[trigger] pend_found(self.spec_pending(), x)
                    ==> node_named(dag.spec_nodes(), x)
                        && has_incoming(dag.spec_nodes(), dag.spec_edges(), x),
                forall|t: int| 0 <= t < i
                    && !has_incoming(dag.spec_nodes(), dag.spec_edges(),
                        (#[trigger] order@[t])@)
                    ==> id_found(self.spec_ready(), order@[t]@),
                forall|t: int| 0 <= t < i
                    && has_incoming(dag.spec_nodes(), dag.spec_edges(),
                        (#[trigger] order@[t])@)
                    ==> pend_found(self.spec_pending(), order@[t]@),
                forall|idx: int| 0 <= idx < self.spec_pending().len()
                    ==> forall|y: Seq<char>|
                        id_found((#[trigger] self.spec_pending()[idx]).1@, y)
                            == is_dep_of(dag.spec_nodes(), dag.spec_edges(),
                                self.spec_pending()[idx].0@, y),
            decreases n - i,
        {
            let deps = dag.dependencies(order[i].as_str());
            let ghost gx = order@[i as int]@;
            if deps.len() == 0 {
                proof {
                    // An empty dependency list refutes every incoming edge.
                    if has_incoming(dag.spec_nodes(), dag.spec_edges(), gx) {
                        let k = choose|k: int| 0 <= k < dag.spec_edges().len()
                            && dag.spec_nodes()[
                                (#[trigger] dag.spec_edges()[k]).1 as int].id@ == gx;
                        assert(is_dep_of(dag.spec_nodes(), dag.spec_edges(), gx,
                            dag.spec_nodes()[dag.spec_edges()[k].0 as int].id@));
                        assert(id_found(deps@, dag.spec_nodes()[
                            dag.spec_edges()[k].0 as int].id@));
                        let t = choose|t: int| 0 <= t < deps@.len()
                            && (#[trigger] deps@[t])@ == dag.spec_nodes()[
                                dag.spec_edges()[k].0 as int].id@;
                    }
                }
                let ghost before = self.spec_ready();
                self.ready.push(order[i].clone());
                proof {
                    assert forall|x: Seq<char>| id_found(self.spec_ready(), x)
                        == (id_found(before, x) || x == gx) by {
                        if id_found(self.spec_ready(), x) {
                            let t = choose|t: int| 0 <= t < self.spec_ready().len()
                                && (#[trigger] self.spec_ready()[t])@ == x;
                            if t < before.len() {
                                assert(before[t]@ == x);
                            }
                        }
                        if id_found(before, x) {
                            let t = choose|t: int| 0 <= t < before.len()
                                && (#[trigger] before[t])@ == x;
                            assert(self.spec_ready()[t]@ == x);
                        }
                        if x == gx {
                            assert(self.spec_ready()[self.spec_ready().len() - 1]@ == x);
                        }
                    }
                    assert(!has_incoming(dag.spec_nodes(), dag.spec_edges(), gx));
                    assert(node_named(dag.spec_nodes(), gx));
                    assert forall|x: Seq<char>| #[trigger] id_found(self.spec_ready(), x)
                        implies node_named(dag.spec_nodes(), x)
                            && !has_incoming(dag.spec_nodes(), dag.spec_edges(), x) by {
                        if !id_found(before, x) {
                            assert(x == gx);
                        }
                    }
                    assert forall|t: int| 0 <= t < i + 1
                        && !has_incoming(dag.spec_nodes(), dag.spec_edges(),
                            (#[trigger] order@[t])@)
                        implies id_found(self.spec_ready(), order@[t]@) by {
                        if t == i {
                            assert(self.spec_ready()[self.spec_ready().len() - 1]@ == gx);
                            assert(id_found(self.spec_ready(), gx));
                        } else {
                            assert(id_found(before, order@[t]@));
                        }
                    }
                }
            } else {
                proof {
                    // A listed dependency exhibits an incoming edge.
                    assert(id_found(deps@, deps@[0]@));
                    assert(is_dep_of(dag.spec_nodes(), dag.spec_edges(), gx, deps@[0]@));
                    let k = choose|k: int| 0 <= k < dag.spec_edges().len()
                        && dag.spec_nodes()[
                            (#[trigger] dag.spec_edges()[k]).1 as int].id@ == gx
                        && dag.spec_nodes()[dag.spec_edges()[k].0 as int].id@ == deps@[0]@;
                    assert(has_incoming(dag.spec_nodes(), dag.spec_edges(), gx));
                }
                let ghost before = self.spec_pending();
                self.pending.push((order[i].clone(), deps));
                proof {
                    assert forall|x: Seq<char>| pend_found(self.spec_pending(), x)
                        == (pend_found(before, x) || x == gx) by {
                        if pend_found(self.spec_pending(), x) {
                            let t = choose|t: int| 0 <= t < self.spec_pending().len()
                                && (#[trigger] self.spec_pending()[t]).0@ == x;
                            if t < before.len() {
                                assert(before[t].0@ == x);
                            }
                        }
                        if pend_found(before, x) {
                            let t = choose|t: int| 0 <= t < before.len()
                                && (#[trigger] before[t]).0@ == x;
                            assert(self.spec_pending()[t].0@ == x);
                        }
                        if x == gx {
                            assert(self.spec_pending()[
                                self.spec_pending().len() - 1].0@ == x);
                        }
                    }
                    assert forall|idx: int| 0 <= idx < self.spec_pending().len()
                        implies forall|y: Seq<char>|
                            id_found((#[trigger] self.spec_pending()[idx]).1@, y)
                                == is_dep_of(dag.spec_nodes(), dag.spec_edges(),
                                    self.spec_pending()[idx].0@, y) by {
                        if idx < before.len() {
                            assert(self.spec_pending()[idx] == before[idx]);
                        }
                    }
                    assert(has_incoming(dag.spec_nodes(), dag.spec_edges(), gx));
                    assert(node_named(dag.spec_nodes(), gx));
                    assert forall|x: Seq<char>| #[trigger] pend_found(self.spec_pending(), x)
                        implies node_named(dag.spec_nodes(), x)
                            && has_incoming(dag.spec_nodes(), dag.spec_edges(), x) by {
                        if !pend_found(before, x) {
                            assert(x == gx);
                        }
                    }
                    assert forall|t: int| 0 <= t < i + 1
                        && has_incoming(dag.spec_nodes(), dag.spec_edges(),
                            (#[trigger] order@[t])@)
                        implies pend_found(self.spec_pending(), order@[t]@) by {
                        if t == i {
                            assert(self.spec_pending()[self.spec_pending().len() - 1].0@ == gx);
                            assert(pend_found(self.spec_pending(), gx));
                        } else {
                            assert(pend_found(before, order@[t]@));
                        }
                    }
                }
            }
            i += 1;
        }
        proof {
            assert forall|x: Seq<char>| id_found(self.spec_ready(), x)
                == (node_named(dag.spec_nodes(), x)
                    && !has_incoming(dag.spec_nodes(), dag.spec_edges(), x)) by {
                if node_named(dag.spec_nodes(), x)
                    && !has_incoming(dag.spec_nodes(), dag.spec_edges(), x) {
                    let j = choose|j: int| 0 <= j < dag.spec_nodes().len()
                        && (#[trigger] dag.spec_nodes()[j]).id@ == x;
                    assert(crate::dag::id_found(order@, dag.spec_nodes()[j].id@));
                    let t = choose|t: int| 0 <= t < order@.len()
                        && (#[trigger] order@[t])@ == x;
                    assert(id_found(self.spec_ready(), order@[t]@));
                }
                if id_found(self.spec_ready(), x) {
                }
            }
            assert forall|x: Seq<char>| pend_found(self.spec_pending(), x)
                == (node_named(dag.spec_nodes(), x)
                    && has_incoming(dag.spec_nodes(), dag.spec_edges(), x)) by {
                if node_named(dag.spec_nodes(), x)
                    && has_incoming(dag.spec_nodes(), dag.spec_edges(), x) {
                    let j = choose|j: int| 0 <= j < dag.spec_nodes().len()
                        && (#[trigger] dag.spec_nodes()[j]).id@ == x;
                    assert(crate::dag::id_found(order@, dag.spec_nodes()[j].id@));
                    let t = choose|t: int| 0 <= t < order@.len()
                        && (#[trigger] order@[t])@ == x;
                    assert(pend_found(self.spec_pending(), order@[t]@));
                }
                if pend_found(self.spec_pending(), x) {
                }
            }
        }
        Ok(())
    }

    /// Dispatches the next ready node, if the cap allows: the head of the
    /// ready queue moves into the running set. Returns nothing — and
    /// changes nothing — when the cap is reached or nothing is ready.
    pub fn next(&mut self) -> (r: Option<String>)
        ensures
            final(self).spec_max_concurrent() == old(self).spec_max_concurrent(),
            final(self).spec_pending() == old(self).spec_pending(),
            match r {
                Some(id) => old(self).spec_running().len() < old(self).spec_max_concurrent()
                    && old(self).spec_ready().len() > 0
                    && id == old(self).spec_ready()[0]
                    && final(self).spec_ready() == old(self).spec_ready().drop_first()
                    && final(self).spec_running()
                        == old(self).spec_running().push(old(self).spec_ready()[0])
                    && final(self).remaining() == old(self).remaining(),
                None => *final(self) == *old(self)
                    && (old(self).spec_running().len() >= old(self).spec_max_concurrent()
                        || old(self).spec_ready().len() == 0),
            },
    {
        if self.running.len() >= self.max_concurrent {
            return None;
        }
        if self.ready.len() == 0 {
            return None;
        }
        let id = self.ready.remove(0);
        self.running.push(id.clone());
        proof {
            assert(self.spec_ready() =~= old(self).spec_ready().drop_first());
        }
        Some(id)
    }

    /// Records the task data of a dispatched node.
    pub fn start(&mut self, node_id: String, task: RunningTask)
        ensures
            final(self).spec_ready() == old(self).spec_ready(),
            final(self).spec_pending() == old(self).spec_pending(),
            final(self).spec_running() == old(self).spec_running(),
            final(self).spec_max_concurrent() == old(self).spec_max_concurrent(),
    {
        let _ = node_id;
        self.tasks.push(task);
    }

    /// Retires a completed node: it leaves the running set, every pending
    /// node loses it as a dependency, and exactly the pending nodes whose
    /// last dependency it was move to the ready queue. When the node was
    /// in flight, exactly one node leaves the scheduler. A scheduler with
    /// nothing pending keeps its ready queue word for word.
    pub fn complete(&mut self, node_id: &str) -> (r: Result<(), ExecError>)
        ensures
            final(self).spec_max_concurrent() == old(self).spec_max_concurrent(),
            r is Ok,
            (exists|k: int| 0 <= k < old(self).spec_running().len()
                && (#[trigger] old(self).spec_running()[k])@ == node_id@)
                ==> final(self).remaining() == old(self).remaining() - 1,
            !(exists|k: int| 0 <= k < old(self).spec_running().len()
                && (#[trigger] old(self).spec_running()[k])@ == node_id@)
                ==> final(self).remaining() == old(self).remaining(),
            old(self).spec_pending().len() == 0
                ==> final(self).spec_ready() == old(self).spec_ready()
                    && final(self).spec_pending().len() == 0,
            forall|x: Seq<char>| pend_found(final(self).spec_pending(), x)
                == (exists|idx: int| 0 <= idx < old(self).spec_pending().len()
                    && (#[trigger] old(self).spec_pending()[idx]).0@ == x
                    && !deps_all_named(old(self).spec_pending()[idx].1@, node_id@)),
            forall|x: Seq<char>| id_found(final(self).spec_ready(), x)
                == (id_found(old(self).spec_ready(), x)
                    || exists|idx: int| 0 <= idx < old(self).spec_pending().len()
                        && (#[trigger] old(self).spec_pending()[idx]).0@ == x
                        && deps_all_named(old(self).spec_pending()[idx].1@, node_id@)),
            pending_filtered(final(self).spec_pending(), old(self).spec_pending(),
                node_id@),
    {
        // Remove the node from the running set.
        let nr = self.running.len();
        let mut k: usize = 0;
        let mut removed = false;
        while k < nr
            invariant
                nr == old(self).spec_running().len(),
                k <= nr,
                self.spec_ready() == old(self).spec_ready(),
                self.spec_pending() == old(self).spec_pending(),
                self.spec_max_concurrent() == old(self).spec_max_concurrent(),
                !removed ==> self.spec_running() == old(self).spec_running(),
                !removed ==> forall|j: int| 0 <= j < k
                    ==> (#[trigger] old(self).spec_running()[j])@ != node_id@,
                removed ==> self.spec_running().len() == nr - 1
                    && exists|j: int| 0 <= j < nr
                        && (#[trigger] old(self).spec_running()[j])@ == node_id@,
            decreases nr - k,
        {
            if !removed && str_eq(self.running[k].as_str(), node_id) {
                let _ = self.running.remove(k);
                removed = true;
                proof {
                    assert(old(self).spec_running()[k as int]@ == node_id@);
                }
            }
            k += 1;
        }
        // Drop the node from every pending dependency list; promote the
        // pending nodes that become free.
        let ghost run1 = self.spec_running();
        let np = self.pending.len();
        let mut rest: Vec<(String, Vec<String>)> = Vec::new();
        let mut promoted: Vec<String> = Vec::new();
        let mut i: usize = 0;
        let ghost pend0 = self.spec_pending();
        while i < np
            invariant
                np == pend0.len(),
                pend0 == self.spec_pending(),
                pend0 == old(self).spec_pending(),
                self.spec_ready() == old(self).spec_ready(),
                self.spec_running() == run1,
                self.spec_max_concurrent() == old(self).spec_max_concurrent(),
                (exists|k: int| 0 <= k < old(self).spec_running().len()
                    && (#[trigger] old(self).spec_running()[k])@ == node_id@)
                    ==> run1.len() == old(self).spec_running().len() - 1,
                !(exists|k: int| 0 <= k < old(self).spec_running().len()
                    && (#[trigger] old(self).spec_running()[k])@ == node_id@)
                    ==> run1 == old(self).spec_running(),
                i <= np,
                rest@.len() + promoted@.len() == i,
                forall|x: Seq<char>| pend_found(rest@, x)
                    == (exists|idx: int| 0 <= idx < i
                        && (#[trigger] pend0[idx]).0@ == x
                        && !deps_all_named(pend0[idx].1@, node_id@)),
                forall|x: Seq<char>| id_found(promoted@, x)
                    == (exists|idx: int| 0 <= idx < i
                        && (#[trigger] pend0[idx]).0@ == x
                        && deps_all_named(pend0[idx].1@, node_id@)),
                forall|idx2: int| 0 <= idx2 < rest@.len()
                    ==> exists|idx: int| 0 <= idx < i
                        && entry_filtered(#[trigger] rest@[idx2],
                            #[trigger] pend0[idx], node_id@),
            decreases np - i,
        {
            let (pid, pdeps) = {
                let e = &self.pending[i];
                (e.0.clone(), remove_dep(&e.1, node_id))
            };
            let ghost gx = pend0[i as int].0@;
            if pdeps.len() == 0 {
                let ghost pbefore = promoted@;
                promoted.push(pid);
                proof {
                    assert(promoted@[promoted@.len() - 1]@ == gx);
                    assert forall|x: Seq<char>| id_found(promoted@, x)
                        == (exists|idx: int| 0 <= idx < i + 1
                            && (#[trigger] pend0[idx]).0@ == x
                            && deps_all_named(pend0[idx].1@, node_id@)) by {
                        if id_found(promoted@, x) {
                            let t = choose|t: int| 0 <= t < promoted@.len()
                                && (#[trigger] promoted@[t])@ == x;
                            if t < pbefore.len() {
                                assert(id_found(pbefore, x));
                                let idx = choose|idx: int| 0 <= idx < i
                                    && (#[trigger] pend0[idx]).0@ == x
                                    && deps_all_named(pend0[idx].1@, node_id@);
                            } else {
                                assert(x == gx);
                            }
                        }
                        if exists|idx: int| 0 <= idx < i + 1
                            && (#[trigger] pend0[idx]).0@ == x
                            && deps_all_named(pend0[idx].1@, node_id@) {
                            let idx = choose|idx: int| 0 <= idx < i + 1
                                && (#[trigger] pend0[idx]).0@ == x
                                && deps_all_named(pend0[idx].1@, node_id@);
                            if idx < i {
                                assert(id_found(pbefore, x));
                                let t = choose|t: int| 0 <= t < pbefore.len()
                                    && (#[trigger] pbefore[t])@ == x;
                                assert(promoted@[t]@ == x);
                            } else {
                                assert(id_found(promoted@,
                                    promoted@[promoted@.len() - 1]@));
                            }
                        }
                    }
                    assert forall|x: Seq<char>| pend_found(rest@, x)
                        == (exists|idx: int| 0 <= idx < i + 1
                            && (#[trigger] pend0[idx]).0@ == x
                            && !deps_all_named(pend0[idx].1@, node_id@)) by {
                        if exists|idx: int| 0 <= idx < i + 1
                            && (#[trigger] pend0[idx]).0@ == x
                            && !deps_all_named(pend0[idx].1@, node_id@) {
                            let idx = choose|idx: int| 0 <= idx < i + 1
                                && (#[trigger] pend0[idx]).0@ == x
                                && !deps_all_named(pend0[idx].1@, node_id@);
                            if idx == i {
                                assert(deps_all_named(pend0[i as int].1@, node_id@));
                                assert(false);
                            }
                        }
                    }
                    assert forall|idx2: int| 0 <= idx2 < rest@.len()
                        implies exists|idx: int| 0 <= idx < i + 1
                            && entry_filtered(#[trigger] rest@[idx2],
                                #[trigger] pend0[idx], node_id@) by {
                        let idx = choose|idx: int| 0 <= idx < i
                            && entry_filtered(#[trigger] rest@[idx2],
                                #[trigger] pend0[idx], node_id@);
                    }
                }
            } else {
                let ghost rbefore = rest@;
                rest.push((pid, pdeps));
                proof {
                    assert(rest@[rest@.len() - 1].0@ == gx);
                    assert(!deps_all_named(pend0[i as int].1@, node_id@));
                    assert forall|x: Seq<char>| pend_found(rest@, x)
                        == (exists|idx: int| 0 <= idx < i + 1
                            && (#[trigger] pend0[idx]).0@ == x
                            && !deps_all_named(pend0[idx].1@, node_id@)) by {
                        if pend_found(rest@, x) {
                            let t = choose|t: int| 0 <= t < rest@.len()
                                && (#[trigger] rest@[t]).0@ == x;
                            if t < rbefore.len() {
                                assert(pend_found(rbefore, x));
                                let idx = choose|idx: int| 0 <= idx < i
                                    && (#[trigger] pend0[idx]).0@ == x
                                    && !deps_all_named(pend0[idx].1@, node_id@);
                            } else {
                                assert(x == gx);
                            }
                        }
                        if exists|idx: int| 0 <= idx < i + 1
                            && (#[trigger] pend0[idx]).0@ == x
                            && !deps_all_named(pend0[idx].1@, node_id@) {
                            let idx = choose|idx: int| 0 <= idx < i + 1
                                && (#[trigger] pend0[idx]).0@ == x
                                && !deps_all_named(pend0[idx].1@, node_id@);
                            if idx < i {
                                assert(pend_found(rbefore, x));
                                let t = choose|t: int| 0 <= t < rbefore.len()
                                    && (#[trigger] rbefore[t]).0@ == x;
                                assert(rest@[t].0@ == x);
                            } else {
                                assert(pend_found(rest@, rest@[rest@.len() - 1].0@));
                            }
                        }
                    }
                    assert forall|x: Seq<char>| id_found(promoted@, x)
                        == (exists|idx: int| 0 <= idx < i + 1
                            && (#[trigger] pend0[idx]).0@ == x
                            && deps_all_named(pend0[idx].1@, node_id@)) by {
                        if exists|idx: int| 0 <= idx < i + 1
                            && (#[trigger] pend0[idx]).0@ == x
                            && deps_all_named(pend0[idx].1@, node_id@) {
                            let idx = choose|idx: int| 0 <= idx < i + 1
                                && (#[trigger] pend0[idx]).0@ == x
                                && deps_all_named(pend0[idx].1@, node_id@);
                            if idx == i {
                                assert(!deps_all_named(pend0[i as int].1@, node_id@));
                                assert(false);
                            }
                        }
                    }
                    assert forall|idx2: int| 0 <= idx2 < rest@.len()
                        implies exists|idx: int| 0 <= idx < i + 1
                            && entry_filtered(#[trigger] rest@[idx2],
                                #[trigger] pend0[idx], node_id@) by {
                        if idx2 < rbefore.len() {
                            assert(rest@[idx2] == rbefore[idx2]);
                            let idx = choose|idx: int| 0 <= idx < i
                                && entry_filtered(#[trigger] rbefore[idx2],
                                    #[trigger] pend0[idx], node_id@);
                            assert(entry_filtered(rest@[idx2], pend0[idx], node_id@));
                        } else {
                            assert(rest@[idx2].0@ == pend0[i as int].0@);
                            assert(forall|y: Seq<char>|
                                #[trigger] id_found(rest@[idx2].1@, y)
                                    == (id_found(pend0[i as int].1@, y) && y != node_id@));
                            assert(entry_filtered(rest@[idx2], pend0[i as int],
                                node_id@));
                        }
                    }
                }
            }
            i += 1;
        }
        let ghost kept = rest@.len();
        let ghost rest_view = rest@;
        let ghost promoted_view = promoted@;
        self.pending = rest;
        proof {
            assert(self.spec_ready() == old(self).spec_ready());
            assert(promoted@ == promoted_view);
        }
        let ghost pre_ready = self.spec_ready();
        append_ids(&mut self.ready, &promoted);
        proof {
            assert(self.ready@.len() == pre_ready.len() + promoted@.len());
            assert forall|x: Seq<char>| id_found(self.spec_ready(), x)
                == (id_found(old(self).spec_ready(), x) || id_found(promoted_view, x))
                by {
                assert(id_found(self.ready@, x)
                    == (id_found(pre_ready, x) || id_found(promoted@, x)));
                assert(self.spec_ready() == self.ready@);
                assert(pre_ready == old(self).spec_ready());
                assert(promoted@ == promoted_view);
            }
            assert(self.spec_ready().len() == old(self).spec_ready().len()
                + promoted_view.len());
            assert(kept + promoted_view.len() == pend0.len());
            if pend0.len() == 0 {
                assert(promoted_view.len() == 0);
                assert(self.spec_pending().len() == 0);
            }
            assert forall|x: Seq<char>| id_found(self.spec_ready(), x)
                == (id_found(old(self).spec_ready(), x)
                    || exists|idx: int| 0 <= idx < pend0.len()
                        && (#[trigger] pend0[idx]).0@ == x
                        && deps_all_named(pend0[idx].1@, node_id@)) by {
                assert(id_found(self.spec_ready(), x)
                    == (id_found(old(self).spec_ready(), x)
                        || id_found(promoted_view, x)));
            }
            assert(pend0 == old(self).spec_pending());
            assert(self.spec_pending() == rest_view);
            assert(pending_filtered(self.spec_pending(), old(self).spec_pending(),
                node_id@)) by {
                assert forall|idx2: int| 0 <= idx2 < self.spec_pending().len()
                    implies entry_refined(#[trigger] self.spec_pending()[idx2],
                        old(self).spec_pending(), node_id@) by {
                    assert(self.spec_pending()[idx2] == rest_view[idx2]);
                    let idx = choose|idx: int| 0 <= idx < np as int
                        && entry_filtered(rest_view[idx2], #[trigger] pend0[idx],
                            node_id@);
                    assert(old(self).spec_pending()[idx] == pend0[idx]);
                    assert(entry_filtered(self.spec_pending()[idx2],
                        old(self).spec_pending()[idx], node_id@));
                }
            }
        }
        Ok(())
    }

    /// Whether nothing is ready, running or pending.
    pub fn is_complete(&self) -> (b: bool)
        ensures
            b == (self.remaining() == 0),
    {
        self.ready.len() == 0 && self.running.len() == 0 && self.pending.len() == 0
    }

    /// How many nodes are in flight.
    pub fn running_count(&self) -> (n: usize)
        ensures
            n == self.spec_running().len(),
    {
        self.running.len()
    }

    /// How many nodes are ready.
    pub fn ready_count(&self) -> (n: usize)
        ensures
            n == self.spec_ready().len(),
    {
        self.ready.len()
    }
}

/// Appends ids to a queue: the result holds exactly the ids of both, and
/// appending nothing changes nothing.
fn append_ids(dst: &mut Vec<String>, src: &Vec<String>)
    ensures
        final(dst)@.len() == old(dst)@.len() + src@.len(),
        src@.len() == 0 ==> final(dst)@ == old(dst)@,
        forall|x: Seq<char>| (#[trigger] id_found(final(dst)@, x))
            == (id_found(old(dst)@, x) || id_found(src@, x)),
{
    let n = src.len();
    let mut q: usize = 0;
    while q < n
        invariant
            n == src@.len(),
            q <= n,
            dst@.len() == old(dst)@.len() + q,
            forall|j: int| 0 <= j < old(dst)@.len() ==> dst@[j] == old(dst)@[j],
            forall|x: Seq<char>| id_found(dst@, x)
                == (id_found(old(dst)@, x) || exists|t: int| 0 <= t < q
                    && (#[trigger] src@[t])@ == x),
        decreases n - q,
    {
        let ghost before = dst@;
        dst.push(src[q].clone());
        proof {
            let ghost gx = src@[q as int]@;
            assert(dst@[dst@.len() - 1]@ == gx);
            assert forall|x: Seq<char>| id_found(dst@, x)
                == (id_found(old(dst)@, x) || exists|t: int| 0 <= t < q + 1
                    && (#[trigger] src@[t])@ == x) by {
                if id_found(dst@, x) {
                    let t = choose|t: int| 0 <= t < dst@.len()
                        && (#[trigger] dst@[t])@ == x;
                    if t < before.len() {
                        assert(id_found(before, x));
                        if !id_found(old(dst)@, x) {
                            let t2 = choose|t2: int| 0 <= t2 < q
                                && (#[trigger] src@[t2])@ == x;
                        }
                    } else {
                        assert(x == gx);
                    }
                }
                if id_found(old(dst)@, x) {
                    let t = choose|t: int| 0 <= t < old(dst)@.len()
                        && (#[trigger] old(dst)@[t])@ == x;
                    assert(before[t]@ == x);
                    assert(dst@[t]@ == x);
                }
                if exists|t: int| 0 <= t < q + 1 && (#[trigger] src@[t])@ == x {
                    let t = choose|t: int| 0 <= t < q + 1 && (#[trigger] src@[t])@ == x;
                    if t < q {
                        assert(id_found(before, x));
                        let t2 = choose|t2: int| 0 <= t2 < before.len()
                            && (#[trigger] before[t2])@ == x;
                        assert(dst@[t2]@ == x);
                    } else {
                        assert(id_found(dst@, dst@[dst@.len() - 1]@));
                    }
                }
            }
        }
        q += 1;
    }
    proof {
        assert forall|x: Seq<char>| id_found(dst@, x)
            == (id_found(old(dst)@, x) || id_found(src@, x)) by {
            if id_found(src@, x) {
                let t = choose|t: int| 0 <= t < src@.len()
                    && (#[trigger] src@[t])@ == x;
            }
            if exists|t: int| 0 <= t < n && (#[trigger] src@[t])@ == x {
            }
        }
        if src@.len() == 0 {
            assert(dst@ =~= old(dst)@);
        }
    }
}

/// The dependency list without the named id: it is empty exactly when
/// every listed dependency was that id, and holds exactly the other ids.
fn remove_dep(deps: &Vec<String>, id: &str) -> (r: Vec<String>)
    ensures
        r@.len() <= deps@.len(),
        (r@.len() == 0) == deps_all_named(deps@, id@),
        forall|x: Seq<char>| id_found(r@, x) == (id_found(deps@, x) && x != id@),
{
    let n = deps.len();
    let mut out: Vec<String> = Vec::new();
    let mut i: usize = 0;
    while i < n
        invariant
            n == deps@.len(),
            i <= n,
            out@.len() <= i,
            forall|j: int| 0 <= j < out@.len() ==> (#[trigger] out@[j])@ != id@,
            forall|j: int| 0 <= j < out@.len()
                ==> id_found(deps@, (#[trigger] out@[j])@),
            forall|j: int| 0 <= j < i && (#[trigger] deps@[j])@ != id@
                ==> id_found(out@, deps@[j]@),
        decreases n - i,
    {
        if !str_eq(deps[i].as_str(), id) {
            let ghost before = out@;
            out.push(deps[i].clone());
            proof {
                assert(out@[out@.len() - 1]@ == deps@[i as int]@);
                assert(id_found(deps@, deps@[i as int]@));
                assert forall|j: int| 0 <= j < i + 1
                    && (#[trigger] deps@[j])@ != id@
                    implies id_found(out@, deps@[j]@) by {
                    if j < i {
                        assert(id_found(before, deps@[j]@));
                        let t = choose|t: int| 0 <= t < before.len()
                            && (#[trigger] before[t])@ == deps@[j]@;
                        assert(out@[t]@ == deps@[j]@);
                    } else {
                        assert(id_found(out@, out@[out@.len() - 1]@));
                    }
                }
            }
        }
        i += 1;
    }
    proof {
        if out@.len() == 0 {
            assert forall|j: int| 0 <= j < deps@.len()
                implies (#[trigger] deps@[j])@ == id@ by {
                if deps@[j]@ != id@ {
                    assert(id_found(out@, deps@[j]@));
                    let t = choose|t: int| 0 <= t < out@.len()
                        && (#[trigger] out@[t])@ == deps@[j]@;
                }
            }
        } else {
            assert(out@[0]@ != id@);
            assert(id_found(deps@, out@[0]@));
            let t = choose|t: int| 0 <= t < deps@.len()
                && (#[trigger] deps@[t])@ == out@[0]@;
            assert(!deps_all_named(deps@, id@));
        }
        assert forall|x: Seq<char>| id_found(out@, x)
            == (id_found(deps@, x) && x != id@) by {
            if id_found(out@, x) {
                let t = choose|t: int| 0 <= t < out@.len() && (#[trigger] out@[t])@ == x;
            }
            if id_found(deps@, x) && x != id@ {
                let t = choose|t: int| 0 <= t < deps@.len()
                    && (#[trigger] deps@[t])@ == x;
                assert(id_found(out@, deps@[t]@));
            }
        }
    }
    out
}

} // verus!

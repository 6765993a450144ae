//! The compiled planning DAG. A well-formed DAG carries a ranking witness
//! under which every edge increases, so it is acyclic by construction; edges
//! that would close a cycle are rejected without touching the graph.

use vstd::prelude::*;
use vstd::string::StrSliceExecFns;
use crate::canon::CanonValue;
use crate::kv::StrMap;
use crate::order::{str_eq, str_lt};
use crate::plan::{FailurePolicy, ResourceAnnotation, RetryPolicy, TimeoutPolicy};

verus! {

/// A node of the DAG.
#[derive(Debug)]
pub struct DagNode {
    /// The unique node id.
    pub id: String,
    /// What the node does.
    pub node_type: DagNodeType,
    /// The capabilities the node needs.
    pub capabilities: Vec<String>,
    /// Resource bounds.
    pub resources: ResourceAnnotation,
    /// What to do when the node fails.
    pub failure_policy: FailurePolicy,
    /// How to retry the node.
    pub retry_policy: RetryPolicy,
    /// How long the node may run.
    pub timeout_policy: TimeoutPolicy,
    /// Free-form metadata.
    pub metadata: StrMap<String>,
}

impl DagNode {
    /// A node with default policies.
    pub fn new(id: &str, node_type: DagNodeType) -> (r: Self)
        ensures
            r.id@ == id@,
            r.node_type == node_type,
            r.capabilities@.len() == 0,
    {
        DagNode {
            id: String::from_str(id),
            node_type,
            capabilities: Vec::new(),
            resources: ResourceAnnotation::default(),
            failure_policy: FailurePolicy::default(),
            retry_policy: RetryPolicy::default(),
            timeout_policy: TimeoutPolicy::default(),
            metadata: StrMap::new(),
        }
    }
}

/// What a DAG node does.
#[derive(Debug)]
pub enum DagNodeType {
    /// Runs a tool.
    Tool {
        /// The tool name.
        name: String,
        /// The tool version.
        version: String,
    },
    /// Takes an observation.
    Observation {
        /// Where to observe.
        source: String,
    },
    /// Decides between branches.
    Decision {
        /// The condition text.
        condition: String,
    },
    /// Waits.
    Wait {
        /// How long, in milliseconds.
        duration_ms: u64,
    },
    /// A marker the scheduler expands.
    Custom {
        /// The marker name.
        type_label: String,
        /// Marker configuration.
        config: CanonValue,
    },
}

/// DAG errors.
#[derive(Clone, Debug, PartialEq, Eq)]
pub enum DagError {
    /// A node with this id already exists.
    DuplicateNode(String),
    /// No node with this id exists.
    NodeNotFound(String),
    /// A dependency names a missing node.
    DependencyNotFound {
        /// The node whose dependency is missing.
        node: String,
        /// The missing dependency.
        dependency: String,
    },
    /// The edge would close a cycle.
    CycleDetected {
        /// The edge source.
        from: String,
        /// The edge target.
        to: String,
    },
    /// The graph is malformed.
    InvalidStructure(String),
}

/// Whether every node id occurs among the given ids.
pub open spec fn id_found(ids: Seq<String>, target: Seq<char>) -> bool {
    exists|i: int| 0 <= i < ids.len() && (#[trigger] ids[i])@ == target
}

pub open spec fn covers(ids: Seq<String>, nodes: Seq<DagNode>) -> bool {
    forall|j: int| 0 <= j < nodes.len() ==> id_found(ids, (#[trigger] nodes[j]).id@)
}

/// The ids drawn along a permutation of the nodes cover every node id.
proof fn lemma_ord_covers(ids: Seq<String>, nodes: Seq<DagNode>, ord: Seq<usize>)
    requires
        ids.len() == nodes.len(),
        ord.len() == nodes.len(),
        forall|t: int| 0 <= t < ord.len() ==> 0 <= (#[trigger] ord[t]) < nodes.len(),
        forall|a: int, b: int| 0 <= a < b < ord.len() ==> ord[a] != ord[b],
        forall|t: int| 0 <= t < ids.len()
            ==> (#[trigger] ids[t])@ == nodes[ord[t] as int].id@,
    ensures
        covers(ids, nodes),
{
    assert forall|j: int| 0 <= j < nodes.len()
        implies id_found(ids, (#[trigger] nodes[j]).id@) by {
        lemma_perm_onto(ord, nodes.len() as int, j);
        let t = choose|t: int| 0 <= t < nodes.len() && ord[t] == j;
        assert(0 <= t < ids.len());
        assert(ids[t]@ == nodes[j].id@);
    }
}

/// Whether the source id of an edge comes before its target id in a list
/// of ids.
pub open spec fn edge_ordered(ids: Seq<String>, nodes: Seq<DagNode>, e: (usize, usize)) -> bool {
    exists|i: int, j: int| 0 <= i < j < ids.len()
        && (#[trigger] ids[i])@ == nodes[e.0 as int].id@
        && (#[trigger] ids[j])@ == nodes[e.1 as int].id@
}

/// Whether every edge's source id comes before its target id.
pub open spec fn order_respects_edges(ids: Seq<String>, nodes: Seq<DagNode>,
    edges: Seq<(usize, usize)>) -> bool {
    forall|k: int| 0 <= k < edges.len() ==> edge_ordered(ids, nodes, #[trigger] edges[k])
}

/// Whether some edge points at the node named `nid`.
pub open spec fn has_incoming(nodes: Seq<DagNode>, edges: Seq<(usize, usize)>,
    nid: Seq<char>) -> bool {
    exists|k: int| 0 <= k < edges.len()
        && nodes[(#[trigger] edges[k]).1 as int].id@ == nid
}

/// Whether `x` names a dependency of the node named `nid`: some edge runs
/// from a node named `x` to a node named `nid`.
pub open spec fn is_dep_of(nodes: Seq<DagNode>, edges: Seq<(usize, usize)>, nid: Seq<char>,
    x: Seq<char>) -> bool {
    exists|k: int| 0 <= k < edges.len()
        && nodes[(#[trigger] edges[k]).1 as int].id@ == nid
        && nodes[edges[k].0 as int].id@ == x
}

/// Whether `x` names a dependent of the node named `nid`: some edge runs
/// from a node named `nid` to a node named `x`.
pub open spec fn is_dependent_of(nodes: Seq<DagNode>, edges: Seq<(usize, usize)>, nid: Seq<char>,
    x: Seq<char>) -> bool {
    exists|k: int| 0 <= k < edges.len()
        && nodes[(#[trigger] edges[k]).0 as int].id@ == nid
        && nodes[edges[k].1 as int].id@ == x
}

/// Whether `(a, b)` is an edge.
pub open spec fn edge_in(edges: Seq<(usize, usize)>, a: int, b: int) -> bool {
    exists|k: int| 0 <= k < edges.len() && (#[trigger] edges[k]).0 == a && edges[k].1 == b
}

/// Whether `p` walks along edges.
pub open spec fn is_path(edges: Seq<(usize, usize)>, p: Seq<int>) -> bool {
    p.len() >= 1 && forall|i: int| 0 <= i < p.len() - 1
        ==> edge_in(edges, #[trigger] p[i], p[i + 1])
}

/// Every rank is nonnegative.
pub open spec fn rank_nonneg(rank: Seq<int>) -> bool {
    forall|i: int| 0 <= i < rank.len() ==> (#[trigger] rank[i]) >= 0
}

/// A ranking under which every edge strictly increases.
pub open spec fn ranked(n: int, edges: Seq<(usize, usize)>, rank: Seq<int>) -> bool {
    &&& rank.len() == n
    &&& forall|k: int| 0 <= k < edges.len() ==> {
        &&& 0 <= (#[trigger] edges[k]).0 < n
        &&& 0 <= edges[k].1 < n
        &&& rank[edges[k].0 as int] < rank[edges[k].1 as int]
    }
}

/// Along a path of a ranked graph, ranks strictly increase.
pub proof fn lemma_path_ranks(n: int, edges: Seq<(usize, usize)>, rank: Seq<int>, p: Seq<int>)
    requires
        ranked(n, edges, rank),
        is_path(edges, p),
        p.len() >= 2,
        forall|i: int| 0 <= i < p.len() ==> 0 <= #[trigger] p[i] < n,
    ensures
        rank[p[0]] < rank[p[p.len() - 1]],
    decreases p.len(),
{
    assert(edge_in(edges, p[0], p[1]));
    let k = choose|k: int| 0 <= k < edges.len() && (#[trigger] edges[k]).0 == p[0]
        && edges[k].1 == p[1];
    assert(rank[p[0]] < rank[p[1]]);
    if p.len() > 2 {
        let q = p.drop_first();
        assert forall|i: int| 0 <= i < q.len() - 1
            implies edge_in(edges, #[trigger] q[i], q[i + 1]) by {
            assert(q[i] == p[i + 1]);
            assert(q[i + 1] == p[i + 2]);
        }
        lemma_path_ranks(n, edges, rank, q);
        assert(q[0] == p[1]);
        assert(q[q.len() - 1] == p[p.len() - 1]);
    }
}

/// A ranked graph has no cycle: no path of length two or more returns to
/// its start.
pub proof fn lemma_ranked_acyclic(n: int, edges: Seq<(usize, usize)>, rank: Seq<int>,
    p: Seq<int>)
    requires
        ranked(n, edges, rank),
        is_path(edges, p),
        p.len() >= 2,
    ensures
        p[0] != p[p.len() - 1],
{
    assert forall|i: int| 0 <= i < p.len() implies 0 <= #[trigger] p[i] < n by {
        if i < p.len() - 1 {
            assert(edge_in(edges, p[i], p[i + 1]));
            let k = choose|k: int| 0 <= k < edges.len() && (#[trigger] edges[k]).0 == p[i]
                && edges[k].1 == p[i + 1];
        } else {
            assert(edge_in(edges, p[i - 1], p[i]));
            let k = choose|k: int| 0 <= k < edges.len() && (#[trigger] edges[k]).0 == p[i - 1]
                && edges[k].1 == p[i];
        }
    }
    lemma_path_ranks(n, edges, rank, p);
}

/// An edge of a set is an edge of any extension of it.
pub proof fn lemma_edge_in_push(edges: Seq<(usize, usize)>, e: (usize, usize), a: int, b: int)
    requires
        edge_in(edges, a, b),
    ensures
        edge_in(edges.push(e), a, b),
{
    let k = choose|k: int| 0 <= k < edges.len() && (#[trigger] edges[k]).0 == a
        && edges[k].1 == b;
    assert(edges.push(e)[k] == edges[k]);
}

/// No ranking orders an edge set that closes a cycle: a path from `e.1`
/// back to `e.0` together with the edge `e` refutes every ranking of the
/// extended set.
pub proof fn lemma_ranked_excludes_cycle(n: int, edges: Seq<(usize, usize)>, rk: Seq<int>,
    p: Seq<int>, e: (usize, usize))
    requires
        is_path(edges, p),
        p.len() >= 1,
        p[0] == e.1 as int,
        p[p.len() - 1] == e.0 as int,
    ensures
        !ranked(n, edges.push(e), rk),
{
    if ranked(n, edges.push(e), rk) {
        let ext = edges.push(e);
        assert forall|i: int| 0 <= i < p.len() - 1
            implies edge_in(ext, #[trigger] p[i], p[i + 1]) by {
            lemma_edge_in_push(edges, e, p[i], p[i + 1]);
        }
        assert(edge_in(ext, e.0 as int, e.1 as int)) by {
            assert(ext[ext.len() - 1] == e);
        }
        let q = p.push(e.1 as int);
        assert(q.len() == p.len() + 1);
        assert forall|i: int| 0 <= i < q.len() - 1
            implies edge_in(ext, #[trigger] q[i], q[i + 1]) by {
            if i < p.len() - 1 {
                assert(q[i] == p[i]);
                assert(q[i + 1] == p[i + 1]);
                lemma_edge_in_push(edges, e, p[i], p[i + 1]);
            } else {
                assert(q[i] == p[p.len() - 1]);
                assert(q[i + 1] == e.1 as int);
            }
        }
        assert(is_path(ext, q));
        assert(q[0] == q[q.len() - 1]);
        lemma_ranked_acyclic(n, ext, rk, q);
        assert(false);
    }
}

/// When every unplaced node waits on an unplaced dependency, no
/// nonnegative ranking can exist.
proof fn lemma_blocked_unranked(n: int, edges: Seq<(usize, usize)>, rk: Seq<int>,
    done: Seq<bool>, v: int)
    requires
        done.len() == n,
        0 <= v < n,
        !done[v],
        forall|w: int| 0 <= w < n && !done[w] ==> exists|k: int| 0 <= k < edges.len()
            && (#[trigger] edges[k]).1 == w && !done[edges[k].0 as int],
    ensures
        !(ranked(n, edges, rk) && rank_nonneg(rk)),
    decreases (if rk.len() == n && 0 <= v < rk.len() && rk[v] >= 0 { rk[v] } else { 0int }),
{
    if ranked(n, edges, rk) && rank_nonneg(rk) {
        let k = choose|k: int| 0 <= k < edges.len() && (#[trigger] edges[k]).1 == v
            && !done[edges[k].0 as int];
        let u = edges[k].0 as int;
        assert(rk[u] < rk[v]);
        assert(rk[u] >= 0);
        lemma_blocked_unranked(n, edges, rk, done, u);
        assert(false);
    }
}

/// A partial order cannot place all of strictly more nodes: when fewer
/// positions than nodes are filled, some node is unplaced.
proof fn lemma_some_undone(done: Seq<bool>, ord: Seq<usize>, rank: Seq<usize>, n: int)
    requires
        done.len() == n,
        rank.len() == n,
        ord.len() < n,
        0 <= n,
        forall|v: int| 0 <= v < n ==> ((#[trigger] done[v])
            ==> rank[v] < ord.len() && ord[rank[v] as int] == v),
    ensures
        exists|v: int| 0 <= v < n && !(#[trigger] done[v]),
{
    if forall|v: int| 0 <= v < n ==> #[trigger] done[v] {
        let f = |v: int| rank[v] as int;
        assert forall|a: int, b: int| 0 <= a < n && 0 <= b < n && a != b
            implies #[trigger] f(a) != #[trigger] f(b) by {
            if f(a) == f(b) {
                assert(done[a] && done[b]);
                assert(ord[rank[a] as int] == a);
                assert(ord[rank[b] as int] == b);
            }
        }
        lemma_injective_image_size(f, n);
        let img = Set::new(|x: int| exists|t: int| 0 <= t < n && #[trigger] f(t) == x);
        let small = vstd::set_lib::set_int_range(0, ord.len() as int);
        vstd::set_lib::lemma_int_range(0, ord.len() as int);
        assert forall|x: int| img.contains(x) implies small.contains(x) by {
            let t = choose|t: int| 0 <= t < n && #[trigger] f(t) == x;
            assert(done[t]);
            assert(rank[t] < ord.len());
        }
        assert(img.subset_of(small));
        vstd::set_lib::lemma_len_subset(img, small);
        assert(false);
    }
}

/// Whether some node carries this id.
pub open spec fn node_named(nodes: Seq<DagNode>, id: Seq<char>) -> bool {
    exists|i: int| 0 <= i < nodes.len() && (#[trigger] nodes[i]).id@ == id
}

/// Whether the edge set extended by `(fi, ti)` still has a nonnegative
/// ranking — that is, stays acyclic.
pub open spec fn extendable(n: int, edges: Seq<(usize, usize)>, fi: usize, ti: usize) -> bool {
    exists|rk: Seq<int>| ranked(n, edges.push((fi, ti)), rk) && rank_nonneg(rk)
}

/// A compiled plan: nodes and dependency edges, acyclic by construction.
pub struct Dag {
    name: String,
    nodes: Vec<DagNode>,
    edges: Vec<(usize, usize)>,
    rank: Ghost<Seq<int>>,
}

impl Dag {
    /// The nodes, in insertion order.
    pub closed spec fn spec_nodes(&self) -> Seq<DagNode> {
        self.nodes@
    }

    /// The edges, as index pairs from dependency to dependent.
    pub closed spec fn spec_edges(&self) -> Seq<(usize, usize)> {
        self.edges@
    }

    /// The ranking witness.
    pub closed spec fn spec_rank(&self) -> Seq<int> {
        self.rank@
    }

    /// Node ids are unique; every edge joins existing nodes and strictly
    /// increases the ranking witness, so the graph is acyclic.
    pub open spec fn wf(&self) -> bool {
        &&& (forall|i: int, j: int| 0 <= i < j < self.spec_nodes().len()
            ==> (#[trigger] self.spec_nodes()[i]).id@ != (#[trigger] self.spec_nodes()[j]).id@)
        &&& ranked(self.spec_nodes().len() as int, self.spec_edges(), self.spec_rank())
        &&& rank_nonneg(self.spec_rank())
    }

    /// An empty DAG.
    pub fn new(name: &str) -> (r: Self)
        ensures
            r.wf(),
            r.spec_name() == name@,
            r.spec_nodes().len() == 0,
            r.spec_edges().len() == 0,
    {
        let r = Dag {
            name: String::from_str(name),
            nodes: Vec::new(),
            edges: Vec::new(),
            rank: Ghost(Seq::empty()),
        };
        proof {
            assert(r.spec_rank() =~= Seq::<int>::empty());
        }
        r
    }

    /// The DAG name.
    pub closed spec fn spec_name(&self) -> Seq<char> {
        self.name@
    }

    /// The DAG name.
    pub fn name(&self) -> (r: &str)
        ensures
            r@ == self.spec_name(),
    {
        self.name.as_str()
    }

    /// The position of the node with this id, if any.
    fn find_node(&self, id: &str) -> (r: Option<usize>)
        ensures
            match r {
                Some(i) => i < self.spec_nodes().len() && self.spec_nodes()[i as int].id@ == id@,
                None => forall|i: int| 0 <= i < self.spec_nodes().len()
                    ==> (#[trigger] self.spec_nodes()[i]).id@ != id@,
            },
    {
        let n = self.nodes.len();
        let mut i: usize = 0;
        while i < n
            invariant
                n == self.spec_nodes().len(),
                i <= n,
                forall|j: int| 0 <= j < i ==> (#[trigger] self.spec_nodes()[j]).id@ != id@,
            decreases n - i,
        {
            if str_eq(self.nodes[i].id.as_str(), id) {
                return Some(i);
            }
            i += 1;
        }
        None
    }

    /// Adds a node; fails with `DuplicateNode` exactly when the id is taken,
    /// and then changes nothing.
    pub fn add_node(&mut self, node: DagNode) -> (r: Result<(), DagError>)
        requires
            old(self).wf(),
        ensures
            final(self).wf(),
            final(self).spec_name() == old(self).spec_name(),
            match r {
                Ok(()) => final(self).spec_nodes() == old(self).spec_nodes().push(node)
                    && final(self).spec_edges() == old(self).spec_edges()
                    && (forall|i: int| 0 <= i < old(self).spec_nodes().len()
                        ==> (#[trigger] old(self).spec_nodes()[i]).id@ != node.id@),
                Err(DagError::DuplicateNode(_)) => *final(self) == *old(self)
                    && exists|i: int| 0 <= i < old(self).spec_nodes().len()
                        && (#[trigger] old(self).spec_nodes()[i]).id@ == node.id@,
                Err(_) => false,
            },
    {
        match self.find_node(node.id.as_str()) {
            Option::Some(_) => Err(DagError::DuplicateNode(node.id)),
            Option::None => {
                self.nodes.push(node);
                proof {
                    self.rank@ = self.rank@.push(0int);
                }
                Ok(())
            },
        }
    }

    /// Adds a dependency edge `from -> to`, named by node ids. Fails with
    /// `NodeNotFound` exactly when an end is missing, and otherwise with
    /// `CycleDetected` exactly when the extended edge set admits no
    /// ranking — that is, when the edge would close a cycle; on any
    /// failure the DAG is unchanged.
    pub fn add_edge(&mut self, from: String, to: String) -> (r: Result<(), DagError>)
        requires
            old(self).wf(),
        ensures
            final(self).wf(),
            final(self).spec_name() == old(self).spec_name(),
            final(self).spec_nodes() == old(self).spec_nodes(),
            r is Err ==> *final(self) == *old(self),
            r matches Err(e) ==> (e is NodeNotFound || e is CycleDetected),
            (r matches Err(DagError::NodeNotFound(_)))
                == !(node_named(old(self).spec_nodes(), from@)
                    && node_named(old(self).spec_nodes(), to@)),
            r matches Err(DagError::NodeNotFound(nm))
                ==> !node_named(old(self).spec_nodes(), nm@)
                    && (nm@ == from@ || nm@ == to@),
            r matches Err(DagError::CycleDetected { from: f, to: t })
                ==> f@ == from@ && t@ == to@
                    && (forall|fi: usize, ti: usize|
                        fi < old(self).spec_nodes().len() && ti < old(self).spec_nodes().len()
                        && (#[trigger] old(self).spec_nodes()[fi as int]).id@ == from@
                        && (#[trigger] old(self).spec_nodes()[ti as int]).id@ == to@
                        ==> !extendable(old(self).spec_nodes().len() as int,
                            old(self).spec_edges(), fi, ti)),
            r is Ok ==> exists|fi: usize, ti: usize|
                fi < old(self).spec_nodes().len() && ti < old(self).spec_nodes().len()
                && (#[trigger] old(self).spec_nodes()[fi as int]).id@ == from@
                && (#[trigger] old(self).spec_nodes()[ti as int]).id@ == to@
                && final(self).spec_edges() == old(self).spec_edges().push((fi, ti)),
    {
        let fi = match self.find_node(from.as_str()) {
            Option::Some(i) => i,
            Option::None => {
                return Err(DagError::NodeNotFound(from));
            },
        };
        let ti = match self.find_node(to.as_str()) {
            Option::Some(i) => i,
            Option::None => {
                return Err(DagError::NodeNotFound(to));
            },
        };
        let mut tentative: Vec<(usize, usize)> = Vec::new();
        let ne = self.edges.len();
        let mut k: usize = 0;
        while k < ne
            invariant
                ne == self.spec_edges().len(),
                k <= ne,
                tentative@.len() == k,
                forall|j: int| 0 <= j < k ==> tentative@[j] == self.spec_edges()[j],
            decreases ne - k,
        {
            let e = self.edges[k];
            tentative.push(e);
            k += 1;
        }
        tentative.push((fi, ti));
        proof {
            assert(tentative@ =~= old(self).spec_edges().push((fi, ti)));
        }
        match topo_indices(&self.nodes, &tentative) {
            Option::Some((ord_unused, rank_vec)) => {
                let ghost new_rank = Seq::new(rank_vec@.len() as nat, |i: int| rank_vec@[i] as int);
                self.edges = tentative;
                proof {
                    self.rank@ = new_rank;
                    assert forall|k: int| 0 <= k < self.spec_edges().len() implies {
                        &&& 0 <= (#[trigger] self.spec_edges()[k]).0 < self.spec_nodes().len()
                        &&& 0 <= self.spec_edges()[k].1 < self.spec_nodes().len()
                        &&& self.spec_rank()[self.spec_edges()[k].0 as int]
                            < self.spec_rank()[self.spec_edges()[k].1 as int]
                    } by {
                        assert(rank_vec@[self.spec_edges()[k].0 as int]
                            < rank_vec@[self.spec_edges()[k].1 as int]);
                    }
                    assert(self.spec_nodes()[fi as int].id@ == from@);
                    assert(self.spec_nodes()[ti as int].id@ == to@);
                }
                Ok(())
            },
            Option::None => {
                proof {
                    // The sort is complete on ranked sets: its refusal means
                    // the extended set admits no nonnegative ranking, for
                    // this index pair and so — by id uniqueness — for any
                    // matching pair.
                    assert(!extendable(self.spec_nodes().len() as int,
                        old(self).spec_edges(), fi, ti));
                    assert forall|fi2: usize, ti2: usize|
                        fi2 < old(self).spec_nodes().len()
                        && ti2 < old(self).spec_nodes().len()
                        && (#[trigger] old(self).spec_nodes()[fi2 as int]).id@ == from@
                        && (#[trigger] old(self).spec_nodes()[ti2 as int]).id@ == to@
                        implies !extendable(old(self).spec_nodes().len() as int,
                            old(self).spec_edges(), fi2, ti2) by {
                        if fi2 as int != fi as int {
                            if (fi2 as int) < (fi as int) {
                                assert(old(self).spec_nodes()[fi2 as int].id@
                                    != old(self).spec_nodes()[fi as int].id@);
                            } else {
                                assert(old(self).spec_nodes()[fi as int].id@
                                    != old(self).spec_nodes()[fi2 as int].id@);
                            }
                        }
                        if ti2 as int != ti as int {
                            if (ti2 as int) < (ti as int) {
                                assert(old(self).spec_nodes()[ti2 as int].id@
                                    != old(self).spec_nodes()[ti as int].id@);
                            } else {
                                assert(old(self).spec_nodes()[ti as int].id@
                                    != old(self).spec_nodes()[ti2 as int].id@);
                            }
                        }
                        assert(fi2 == fi && ti2 == ti);
                    }
                }
                Err(DagError::CycleDetected { from, to })
            },
        }
    }

    /// The node with this id, if any.
    pub fn node(&self, id: &str) -> (r: Option<&DagNode>)
        ensures
            match r {
                Some(nd) => exists|i: int| 0 <= i < self.spec_nodes().len()
                    && *nd == self.spec_nodes()[i] && nd.id@ == id@,
                None => forall|i: int| 0 <= i < self.spec_nodes().len()
                    ==> (#[trigger] self.spec_nodes()[i]).id@ != id@,
            },
    {
        match self.find_node(id) {
            Option::Some(i) => {
                let nd = &self.nodes[i];
                proof {
                    assert(*nd == self.spec_nodes()[i as int]);
                }
                Some(nd)
            },
            Option::None => None,
        }
    }

    /// All nodes, in insertion order.
    pub fn nodes(&self) -> (r: &Vec<DagNode>)
        ensures
            r@ == self.spec_nodes(),
    {
        &self.nodes
    }

    /// The ids of the nodes this node depends on: exactly the sources of
    /// the edges into it, in edge order. A missing id yields nothing.
    pub fn dependencies(&self, id: &str) -> (r: Vec<String>)
        requires
            self.wf(),
        ensures
            forall|x: Seq<char>| id_found(r@, x) == is_dep_of(self.spec_nodes(),
                self.spec_edges(), id@, x),
            !node_named(self.spec_nodes(), id@) ==> r@.len() == 0,
    {
        let mut out: Vec<String> = Vec::new();
        let ti = match self.find_node(id) {
            Option::Some(i) => i,
            Option::None => {
                proof {
                    assert forall|x: Seq<char>| !is_dep_of(self.spec_nodes(),
                        self.spec_edges(), id@, x) by {
                        if is_dep_of(self.spec_nodes(), self.spec_edges(), id@, x) {
                            let k = choose|k: int| 0 <= k < self.spec_edges().len()
                                && self.spec_nodes()[
                                    (#[trigger] self.spec_edges()[k]).1 as int].id@ == id@
                                && self.spec_nodes()[self.spec_edges()[k].0 as int].id@ == x;
                        }
                    }
                    assert forall|x: Seq<char>| !id_found(out@, x) by {}
                }
                return out;
            },
        };
        let ne = self.edges.len();
        let mut k: usize = 0;
        while k < ne
            invariant
                self.wf(),
                ne == self.spec_edges().len(),
                ti < self.spec_nodes().len(),
                self.spec_nodes()[ti as int].id@ == id@,
                k <= ne,
                forall|t: int| 0 <= t < out@.len() ==> is_dep_of(self.spec_nodes(),
                    self.spec_edges(), id@, (#[trigger] out@[t])@),
                forall|k2: int| 0 <= k2 < k && (#[trigger] self.spec_edges()[k2]).1 == ti
                    ==> id_found(out@, self.spec_nodes()[
                        self.spec_edges()[k2].0 as int].id@),
            decreases ne - k,
        {
            let e = self.edges[k];
            if e.1 == ti {
                proof {
                    assert(self.spec_edges()[k as int] == e);
                    assert(0 <= e.0 < self.spec_nodes().len());
                }
                let ghost before = out@;
                out.push(self.nodes[e.0].id.clone());
                proof {
                    let ghost j = out@.len() - 1;
                    assert(out@[j]@ == self.spec_nodes()[
                        self.spec_edges()[k as int].0 as int].id@);
                    assert(is_dep_of(self.spec_nodes(), self.spec_edges(), id@, out@[j]@));
                    assert forall|x: Seq<char>| id_found(before, x)
                        implies id_found(out@, x) by {
                        let t = choose|t: int| 0 <= t < before.len()
                            && (#[trigger] before[t])@ == x;
                        assert(out@[t]@ == x);
                    }
                }
            }
            k += 1;
        }
        proof {
            assert forall|x: Seq<char>| id_found(out@, x) == is_dep_of(
                self.spec_nodes(), self.spec_edges(), id@, x) by {
                if id_found(out@, x) {
                    let t = choose|t: int| 0 <= t < out@.len() && (#[trigger] out@[t])@ == x;
                }
                if is_dep_of(self.spec_nodes(), self.spec_edges(), id@, x) {
                    let k2 = choose|k2: int| 0 <= k2 < self.spec_edges().len()
                        && self.spec_nodes()[
                            (#[trigger] self.spec_edges()[k2]).1 as int].id@ == id@
                        && self.spec_nodes()[self.spec_edges()[k2].0 as int].id@ == x;
                    // By id uniqueness the targeted node is the one found.
                    let tj = self.spec_edges()[k2].1 as int;
                    if tj != ti as int {
                        if tj < ti as int {
                            assert(self.spec_nodes()[tj].id@
                                != self.spec_nodes()[ti as int].id@);
                        } else {
                            assert(self.spec_nodes()[ti as int].id@
                                != self.spec_nodes()[tj].id@);
                        }
                    }
                    assert(self.spec_edges()[k2].1 == ti);
                    assert(id_found(out@, self.spec_nodes()[
                        self.spec_edges()[k2].0 as int].id@));
                }
            }
        }
        out
    }

    /// The ids of the nodes that depend on this node: exactly the targets
    /// of the edges out of it, in edge order. A missing id yields nothing.
    pub fn dependents(&self, id: &str) -> (r: Vec<String>)
        requires
            self.wf(),
        ensures
            forall|x: Seq<char>| id_found(r@, x) == is_dependent_of(self.spec_nodes(),
                self.spec_edges(), id@, x),
            !node_named(self.spec_nodes(), id@) ==> r@.len() == 0,
    {
        let mut out: Vec<String> = Vec::new();
        let si = match self.find_node(id) {
            Option::Some(i) => i,
            Option::None => {
                proof {
                    assert forall|x: Seq<char>| !is_dependent_of(self.spec_nodes(),
                        self.spec_edges(), id@, x) by {
                        if is_dependent_of(self.spec_nodes(), self.spec_edges(), id@, x) {
                            let k = choose|k: int| 0 <= k < self.spec_edges().len()
                                && self.spec_nodes()[
                                    (#[trigger] self.spec_edges()[k]).0 as int].id@ == id@
                                && self.spec_nodes()[self.spec_edges()[k].1 as int].id@ == x;
                        }
                    }
                    assert forall|x: Seq<char>| !id_found(out@, x) by {}
                }
                return out;
            },
        };
        let ne = self.edges.len();
        let mut k: usize = 0;
        while k < ne
            invariant
                self.wf(),
                ne == self.spec_edges().len(),
                si < self.spec_nodes().len(),
                self.spec_nodes()[si as int].id@ == id@,
                k <= ne,
                forall|t: int| 0 <= t < out@.len() ==> is_dependent_of(self.spec_nodes(),
                    self.spec_edges(), id@, (#[trigger] out@[t])@),
                forall|k2: int| 0 <= k2 < k && (#[trigger] self.spec_edges()[k2]).0 == si
                    ==> id_found(out@, self.spec_nodes()[
                        self.spec_edges()[k2].1 as int].id@),
            decreases ne - k,
        {
            let e = self.edges[k];
            if e.0 == si {
                proof {
                    assert(self.spec_edges()[k as int] == e);
                    assert(0 <= e.1 < self.spec_nodes().len());
                }
                let ghost before = out@;
                out.push(self.nodes[e.1].id.clone());
                proof {
                    let ghost j = out@.len() - 1;
                    assert(out@[j]@ == self.spec_nodes()[
                        self.spec_edges()[k as int].1 as int].id@);
                    assert(is_dependent_of(self.spec_nodes(), self.spec_edges(), id@,
                        out@[j]@));
                    assert forall|x: Seq<char>| id_found(before, x)
                        implies id_found(out@, x) by {
                        let t = choose|t: int| 0 <= t < before.len()
                            && (#[trigger] before[t])@ == x;
                        assert(out@[t]@ == x);
                    }
                }
            }
            k += 1;
        }
        proof {
            assert forall|x: Seq<char>| id_found(out@, x) == is_dependent_of(
                self.spec_nodes(), self.spec_edges(), id@, x) by {
                if id_found(out@, x) {
                    let t = choose|t: int| 0 <= t < out@.len() && (#[trigger] out@[t])@ == x;
                }
                if is_dependent_of(self.spec_nodes(), self.spec_edges(), id@, x) {
                    let k2 = choose|k2: int| 0 <= k2 < self.spec_edges().len()
                        && self.spec_nodes()[
                            (#[trigger] self.spec_edges()[k2]).0 as int].id@ == id@
                        && self.spec_nodes()[self.spec_edges()[k2].1 as int].id@ == x;
                    let sj = self.spec_edges()[k2].0 as int;
                    if sj != si as int {
                        if sj < si as int {
                            assert(self.spec_nodes()[sj].id@
                                != self.spec_nodes()[si as int].id@);
                        } else {
                            assert(self.spec_nodes()[si as int].id@
                                != self.spec_nodes()[sj].id@);
                        }
                    }
                    assert(self.spec_edges()[k2].0 == si);
                    assert(id_found(out@, self.spec_nodes()[
                        self.spec_edges()[k2].1 as int].id@));
                }
            }
        }
        out
    }

    /// How many nodes the DAG holds.
    pub fn len(&self) -> (n: usize)
        ensures
            n == self.spec_nodes().len(),
    {
        self.nodes.len()
    }

    /// Whether the DAG is empty.
    pub fn is_empty(&self) -> (b: bool)
        ensures
            b == (self.spec_nodes().len() == 0),
    {
        self.nodes.len() == 0
    }

    /// A topological order over all node ids: it always succeeds on a
    /// well-formed DAG, returns each node id exactly once, and for every
    /// edge the source id comes before the target id. Ties among ready
    /// nodes go to the lexicographically least id, so the order is a
    /// deterministic function of the graph.
    pub fn topological_order(&self) -> (r: Result<Vec<String>, DagError>)
        requires
            self.wf(),
        ensures
            r is Ok,
            match r {
                Ok(ids) => {
                    &&& ids@.len() == self.spec_nodes().len()
                    &&& covers(ids@, self.spec_nodes())
                    &&& (forall|t: int| 0 <= t < ids@.len()
                        ==> node_named(self.spec_nodes(), (#[trigger] ids@[t])@))
                    &&& (forall|a: int, b: int| 0 <= a < b < ids@.len()
                        ==> (#[trigger] ids@[a])@ != (#[trigger] ids@[b])@)
                    &&& order_respects_edges(ids@, self.spec_nodes(), self.spec_edges())
                },
                Err(_) => false,
            },
    {
        proof {
            assert(ranked(self.spec_nodes().len() as int, self.spec_edges(),
                self.spec_rank()) && rank_nonneg(self.spec_rank()));
        }
        match topo_indices(&self.nodes, &self.edges) {
            Option::Some((ord, rank_pos)) => {
                let n = self.nodes.len();
                let mut ids: Vec<String> = Vec::new();
                let mut i: usize = 0;
                while i < n
                    invariant
                        self.wf(),
                        n == self.spec_nodes().len(),
                        ord@.len() == n,
                        rank_pos@.len() == n,
                        forall|t: int| 0 <= t < n ==> 0 <= (#[trigger] ord@[t]) < n,
                        forall|a: int, b: int| 0 <= a < b < n ==> ord@[a] != ord@[b],
                        forall|v: int| 0 <= v < n ==> (#[trigger] rank_pos@[v]) < n
                            && ord@[rank_pos@[v] as int] == v,
                        forall|k: int| 0 <= k < self.spec_edges().len()
                            ==> 0 <= (#[trigger] self.spec_edges()[k]).0 < n
                                && 0 <= self.spec_edges()[k].1 < n
                                && rank_pos@[self.spec_edges()[k].0 as int]
                                    < rank_pos@[self.spec_edges()[k].1 as int],
                        i <= n,
                        ids@.len() == i,
                        forall|t: int| 0 <= t < i
                            ==> (#[trigger] ids@[t])@ == self.spec_nodes()[ord@[t] as int].id@,
                    decreases n - i,
                {
                    let v = ord[i];
                    ids.push(self.nodes[v].id.clone());
                    i += 1;
                }
                proof {
                    lemma_ord_covers(ids@, self.spec_nodes(), ord@);
                    assert forall|t: int| 0 <= t < ids@.len()
                        implies node_named(self.spec_nodes(), (#[trigger] ids@[t])@) by {
                        assert(ids@[t]@ == self.spec_nodes()[ord@[t] as int].id@);
                    }
                    assert forall|a: int, b: int| 0 <= a < b < ids@.len()
                        implies (#[trigger] ids@[a])@ != (#[trigger] ids@[b])@ by {
                        assert(ord@[a] != ord@[b]);
                        if ord@[a] < ord@[b] {
                            assert(self.spec_nodes()[ord@[a] as int].id@
                                != self.spec_nodes()[ord@[b] as int].id@);
                        } else {
                            assert(self.spec_nodes()[ord@[b] as int].id@
                                != self.spec_nodes()[ord@[a] as int].id@);
                        }
                    }
                    assert forall|k: int| 0 <= k < self.spec_edges().len()
                        implies edge_ordered(ids@, self.spec_nodes(),
                            #[trigger] self.spec_edges()[k]) by {
                        let e = self.spec_edges()[k];
                        let i2 = rank_pos@[e.0 as int] as int;
                        let j2 = rank_pos@[e.1 as int] as int;
                        assert(ord@[i2] == e.0 as int);
                        assert(ord@[j2] == e.1 as int);
                        assert(ids@[i2]@ == self.spec_nodes()[e.0 as int].id@);
                        assert(ids@[j2]@ == self.spec_nodes()[e.1 as int].id@);
                    }
                }
                Ok(ids)
            },
            Option::None => {
                // The well-formed DAG carries a nonnegative ranking, and the
                // sort is complete on ranked sets, so this branch cannot be
                // reached.
                proof {
                    assert(false);
                }
                Err(DagError::CycleDetected {
                    from: String::from_str("unknown"),
                    to: String::from_str("unknown"),
                })
            },
        }
    }

    /// Checks the DAG structure; a well-formed DAG always passes.
    pub fn validate(&self) -> (r: Result<(), DagError>)
        requires
            self.wf(),
        ensures
            r is Ok,
    {
        match self.topological_order() {
            Ok(_) => Ok(()),
            Err(e) => Err(e),
        }
    }
}

/// An injective bounded sequence covering 0..n hits every value below n.
proof fn lemma_perm_onto(ord: Seq<usize>, n: int, v: int)
    requires
        ord.len() == n,
        0 <= v < n,
        forall|t: int| 0 <= t < n ==> 0 <= (#[trigger] ord[t]) < n,
        forall|a: int, b: int| 0 <= a < b < n ==> ord[a] != ord[b],
    ensures
        exists|t: int| 0 <= t < n && ord[t] == v,
{
    let f = |t: int| ord[t] as int;
    assert forall|a: int, b: int| 0 <= a < n && 0 <= b < n && a != b
        implies #[trigger] f(a) != #[trigger] f(b) by {
        if a < b {
            assert(ord[a] != ord[b]);
        } else {
            assert(ord[b] != ord[a]);
        }
        assert(f(a) == ord[a] as int);
        assert(f(b) == ord[b] as int);
    }
    lemma_injective_image_size(f, n);
    let img = Set::new(|x: int| exists|t: int| 0 <= t < n && #[trigger] f(t) == x);
    if !img.contains(v) {
        let all = vstd::set_lib::set_int_range(0, n);
        vstd::set_lib::lemma_int_range(0, n);
        assert forall|x: int| img.contains(x) implies all.remove(v).contains(x) by {
            let t = choose|t: int| 0 <= t < n && #[trigger] f(t) == x;
            assert(0 <= ord[t] < n);
        }
        assert(img.subset_of(all.remove(v)));
        assert(all.remove(v).len() == n - 1);
        vstd::set_lib::lemma_len_subset(img, all.remove(v));
        assert(false);
    }
    let t = choose|t: int| 0 <= t < n && #[trigger] f(t) == v;
    assert(ord[t] == v);
}

/// The image of an injective map over 0..n has size n.
proof fn lemma_injective_image_size(f: spec_fn(int) -> int, n: int)
    requires
        n >= 0,
        forall|a: int, b: int| 0 <= a < n && 0 <= b < n && a != b
            ==> #[trigger] f(a) != #[trigger] f(b),
    ensures
        Set::new(|x: int| exists|t: int| 0 <= t < n && #[trigger] f(t) == x).finite(),
        Set::new(|x: int| exists|t: int| 0 <= t < n && #[trigger] f(t) == x).len() == n,
    decreases n,
{
    let cur = Set::new(|x: int| exists|t: int| 0 <= t < n && #[trigger] f(t) == x);
    if n == 0 {
        assert(cur =~= Set::<int>::empty());
    } else {
        lemma_injective_image_size(f, n - 1);
        let prev = Set::new(|x: int| exists|t: int| 0 <= t < n - 1 && #[trigger] f(t) == x);
        assert(!prev.contains(f(n - 1)));
        assert forall|x: int| cur.contains(x)
            implies prev.insert(f(n - 1)).contains(x) by {
            let t = choose|t: int| 0 <= t < n && #[trigger] f(t) == x;
            if t < n - 1 {
                assert(prev.contains(x));
            }
        }
        assert forall|x: int| prev.insert(f(n - 1)).contains(x)
            implies cur.contains(x) by {
            if prev.contains(x) {
                let t = choose|t: int| 0 <= t < n - 1 && #[trigger] f(t) == x;
                assert(f(t) == x);
            } else {
                assert(f(n - 1) == x);
            }
        }
        assert(cur =~= prev.insert(f(n - 1)));
    }
}

/// Kahn's algorithm by repeated selection: each round takes the node with the
/// lexicographically least id among those whose dependencies are all placed.
/// Returns the order and the position of each node in it, or nothing if no
/// such order exists.
fn topo_indices(nodes: &Vec<DagNode>, edges: &Vec<(usize, usize)>)
    -> (r: Option<(Vec<usize>, Vec<usize>)>)
    ensures
        r is Some ==> (r->0).0@.len() == nodes@.len(),
        r is Some ==> (r->0).1@.len() == nodes@.len(),
        r is Some ==> forall|t: int| 0 <= t < (r->0).0@.len()
            ==> 0 <= (#[trigger] (r->0).0@[t]) < nodes@.len(),
        r is Some ==> forall|a: int, b: int| 0 <= a < b < (r->0).0@.len()
            ==> (r->0).0@[a] != (r->0).0@[b],
        r is Some ==> forall|v: int| 0 <= v < nodes@.len()
            ==> (#[trigger] (r->0).1@[v]) < (r->0).0@.len()
                && (r->0).0@[(r->0).1@[v] as int] == v,
        r is Some ==> forall|k: int| 0 <= k < edges@.len()
            ==> 0 <= (#[trigger] edges@[k]).0 < nodes@.len()
                && 0 <= edges@[k].1 < nodes@.len()
                && (r->0).1@[edges@[k].0 as int] < (r->0).1@[edges@[k].1 as int],
        (exists|rk: Seq<int>| ranked(nodes@.len() as int, edges@, rk) && rank_nonneg(rk))
            ==> r is Some,
{
    let n = nodes.len();
    let ne = edges.len();
    // Refuse edges that point outside the node list.
    let mut c: usize = 0;
    while c < ne
        invariant
            n == nodes@.len(),
            ne == edges@.len(),
            c <= ne,
            forall|k: int| 0 <= k < c ==> (#[trigger] edges@[k]).0 < n && edges@[k].1 < n,
        decreases ne - c,
    {
        let e = edges[c];
        if e.0 >= n || e.1 >= n {
            proof {
                assert forall|rk: Seq<int>|
                    !(ranked(n as int, edges@, rk) && rank_nonneg(rk)) by {
                    if ranked(n as int, edges@, rk) {
                        assert(0 <= (edges@[c as int]).0 < n && 0 <= edges@[c as int].1 < n);
                    }
                }
            }
            return None;
        }
        c += 1;
    }
    let mut done: Vec<bool> = Vec::new();
    let mut rank: Vec<usize> = Vec::new();
    let mut i: usize = 0;
    while i < n
        invariant
            i <= n,
            done@.len() == i,
            rank@.len() == i,
            forall|v: int| 0 <= v < i ==> !(#[trigger] done@[v]),
        decreases n - i,
    {
        done.push(false);
        rank.push(0);
        i += 1;
    }
    let mut ord: Vec<usize> = Vec::new();
    while ord.len() < n
        invariant
            n == nodes@.len(),
            ne == edges@.len(),
            forall|k: int| 0 <= k < ne ==> (#[trigger] edges@[k]).0 < n && edges@[k].1 < n,
            done@.len() == n,
            rank@.len() == n,
            ord@.len() <= n,
            forall|t: int| 0 <= t < ord@.len() ==> 0 <= (#[trigger] ord@[t]) < n,
            forall|t: int| 0 <= t < ord@.len() ==> done@[ord@[t] as int]
                && rank@[ord@[t] as int] == t,
            forall|v: int| 0 <= v < n ==> (#[trigger] done@[v]
                ==> rank@[v] < ord@.len() && ord@[rank@[v] as int] == v),
            forall|k: int| 0 <= k < ne ==> ((#[trigger] done@[edges@[k].1 as int])
                ==> done@[edges@[k].0 as int]
                    && rank@[edges@[k].0 as int] < rank@[edges@[k].1 as int]),
        decreases n - ord.len(),
    {
        // Find the candidate with the least id.
        let mut best: Option<usize> = None;
        let mut v: usize = 0;
        while v < n
            invariant
                n == nodes@.len(),
                ne == edges@.len(),
                forall|k: int| 0 <= k < ne ==> (#[trigger] edges@[k]).0 < n && edges@[k].1 < n,
                done@.len() == n,
                v <= n,
                match best {
                    Some(b) => b < n && !done@[b as int]
                        && (forall|k: int| 0 <= k < ne ==> ((#[trigger] edges@[k]).1 == b
                            ==> done@[edges@[k].0 as int])),
                    None => forall|w: int| 0 <= w < v && !done@[w]
                        ==> exists|k: int| 0 <= k < ne && (#[trigger] edges@[k]).1 == w
                            && !done@[edges@[k].0 as int],
                },
            decreases n - v,
        {
            if !done[v] {
                // All dependencies placed?
                let mut okd = true;
                let mut k: usize = 0;
                while k < ne
                    invariant
                        n == nodes@.len(),
                        ne == edges@.len(),
                        forall|kk: int| 0 <= kk < ne
                            ==> (#[trigger] edges@[kk]).0 < n && edges@[kk].1 < n,
                        done@.len() == n,
                        v < n,
                        k <= ne,
                        okd ==> forall|kk: int| 0 <= kk < k
                            ==> ((#[trigger] edges@[kk]).1 == v as int
                                ==> done@[edges@[kk].0 as int]),
                        !okd ==> exists|kk: int| 0 <= kk < ne
                            && (#[trigger] edges@[kk]).1 == v as int
                            && !done@[edges@[kk].0 as int],
                    decreases ne - k,
                {
                    let e = edges[k];
                    if e.1 == v && !done[e.0] {
                        proof {
                            assert((edges@[k as int]).1 == v as int
                                && !done@[edges@[k as int].0 as int]);
                        }
                        okd = false;
                    }
                    k += 1;
                }
                if okd {
                    match &best {
                        Option::Some(b) => {
                            if str_lt(nodes[v].id.as_str(), nodes[*b].id.as_str()) {
                                best = Some(v);
                            }
                        },
                        Option::None => {
                            best = Some(v);
                        },
                    }
                }
            }
            v += 1;
        }
        match best {
            Option::Some(b) => {
                let pos = ord.len();
                done.set(b, true);
                rank.set(b, pos);
                ord.push(b);
                proof {
                    assert forall|k: int| 0 <= k < ne
                        implies ((#[trigger] done@[edges@[k].1 as int])
                            ==> done@[edges@[k].0 as int]
                                && rank@[edges@[k].0 as int] < rank@[edges@[k].1 as int]) by {
                        if done@[edges@[k].1 as int] {
                            if edges@[k].1 == b as int {
                                assert(done@[edges@[k].0 as int]);
                            }
                        }
                    }
                }
            },
            Option::None => {
                proof {
                    lemma_some_undone(done@, ord@, rank@, n as int);
                    let und = choose|w: int| 0 <= w < n && !(#[trigger] done@[w]);
                    assert forall|rk: Seq<int>|
                        !(ranked(n as int, edges@, rk) && rank_nonneg(rk)) by {
                        lemma_blocked_unranked(n as int, edges@, rk, done@, und);
                    }
                }
                return None;
            },
        }
    }
    proof {
        assert forall|a: int, b: int| 0 <= a < n && 0 <= b < n && a != b
            implies ord@[a] != ord@[b] by {
            if ord@[a] == ord@[b] {
                assert(rank@[ord@[a] as int] == a);
                assert(rank@[ord@[b] as int] == b);
            }
        }
        assert forall|v: int| 0 <= v < n implies #[trigger] done@[v] by {
            lemma_perm_all_done(done@, ord@, rank@, n as int, v);
        }
        assert forall|v: int| 0 <= v < n
            implies (#[trigger] rank@[v]) < ord@.len() && ord@[rank@[v] as int] == v by {
            assert(done@[v]);
        }
        assert forall|k: int| 0 <= k < ne
            implies (#[trigger] rank@[edges@[k].0 as int]) < rank@[edges@[k].1 as int] by {
            assert(done@[edges@[k].1 as int]);
        }
    }
    Some((ord, rank))
}

/// When the order holds as many entries as there are nodes, every node is
/// placed.
proof fn lemma_perm_all_done(done: Seq<bool>, ord: Seq<usize>, rank: Seq<usize>, n: int, v: int)
    requires
        done.len() == n,
        ord.len() == n,
        0 <= v < n,
        forall|t: int| 0 <= t < n ==> 0 <= (#[trigger] ord[t]) < n,
        forall|t: int| 0 <= t < n ==> done[ord[t] as int],
        forall|a: int, b: int| 0 <= a < n && 0 <= b < n && a != b ==> ord[a] != ord[b],
    ensures
        done[v],
{
    lemma_perm_onto(ord, n, v);
    let t = choose|t: int| 0 <= t < n && ord[t] == v;
    assert(done[ord[t] as int]);
}

} // verus!

//! States of an automaton graph and their one-step transition behaviour.
//!
//! A state graph is an arena `Vec<Node>`; a node refers to its successors by
//! index into that arena, which keeps the (cyclic) graph free of ownership
//! cycles while leaving every step an O(1) pure computation.

use vstd::prelude::*;

verus! {

/// How a state chooses its successor for an input symbol.
///
/// The two constructions deliberately differ on unmapped symbols: a `Table`
/// state treats a symbol without an edge as a lookup fault (the graph was
/// built incompletely relative to the alphabet it met), while a `Rule` state
/// routes every unmapped symbol to its declared fallback and so is total.
pub enum Policy {
    /// Explicit per-symbol edges only; a symbol with no edge is a fault.
    Table { edges: Vec<(char, usize)> },
    /// Per-symbol edges plus a fallback successor for every other symbol.
    Rule { edges: Vec<(char, usize)>, fallback: usize },
}

/// A named state of the graph, with its transition policy.
pub struct Node {
    /// Identifying label, inspected by callers to classify run outcomes.
    /// Names are labels only: the engine never compares or deduplicates them.
    pub name: &'static str,
    /// How this state chooses a successor for each symbol.
    pub policy: Policy,
}

/// A lookup fault: at state `state` the symbol `symbol` had no transition,
/// either because a `Table` state lacks an edge for it or because the current
/// state index lies outside the arena. This is a malformed-graph condition,
/// distinct from an ordinary transition into an absorbing error state.
#[derive(Debug, Clone, Copy)]
pub struct Fault {
    /// The state at which the walk got stuck.
    pub state: usize,
    /// The symbol for which that state has no transition.
    pub symbol: char,
}

/// The first edge for symbol `c` at or after position `i`, front to back.
pub open spec fn lookup_from(edges: Seq<(char, usize)>, c: char, i: nat) -> Option<usize>
    decreases edges.len() - i,
{
    if i >= edges.len() {
        None
    } else if edges[i as int].0 == c {
        Some(edges[i as int].1)
    } else {
        lookup_from(edges, c, i + 1)
    }
}

/// The successor the edge list maps symbol `c` to, if any.
pub open spec fn lookup(edges: Seq<(char, usize)>, c: char) -> Option<usize> {
    lookup_from(edges, c, 0)
}

/// The successor state `n` yields for symbol `c`; `None` is a lookup fault.
pub open spec fn next_of(n: Node, c: char) -> Option<usize> {
    match n.policy {
        Policy::Table { edges } => lookup(edges@, c),
        Policy::Rule { edges, fallback } => match lookup(edges@, c) {
            Some(t) => Some(t),
            None => Some(fallback),
        },
    }
}

/// Every successor this node can name lies inside an arena of length `len`.
pub open spec fn node_wf(n: Node, len: nat) -> bool {
    match n.policy {
        Policy::Table { edges } => forall|j: int|
            0 <= j < edges@.len() ==> (#[trigger] edges@[j]).1 < len,
        Policy::Rule { edges, fallback } => fallback < len && forall|j: int|
            0 <= j < edges@.len() ==> (#[trigger] edges@[j]).1 < len,
    }
}

fn lookup_edges(edges: &Vec<(char, usize)>, c: char) -> (r: Option<usize>)
    ensures
        r == lookup(edges@, c),
{
    let n: usize = edges.len();
    let mut i: usize = 0;
    while i < n
        invariant
            n == edges@.len(),
            i <= n,
            lookup(edges@, c) == lookup_from(edges@, c, i as nat),
        decreases n - i,
    {
        if edges[i].0 == c {
            return Some(edges[i].1);
        }
        i = i + 1;
    }
    None
}

impl Node {
    /// A state with the given label and transition policy.
    pub fn new(name: &'static str, policy: Policy) -> (r: Node)
        ensures
            r.name == name,
            r.policy == policy,
    {
        Node { name, policy }
    }

    /// Advance on one symbol: the successor state's index, or `None` when a
    /// `Table` state has no edge for the symbol.
    pub fn advance(&self, c: char) -> (r: Option<usize>)
        ensures
            r == next_of(*self, c),
    {
        match &self.policy {
            Policy::Table { edges } => lookup_edges(edges, c),
            Policy::Rule { edges, fallback } => match lookup_edges(edges, c) {
                Some(t) => Some(t),
                None => Some(*fallback),
            },
        }
    }

    /// If a lookup in this node's edges succeeds, the successor it names
    /// stays inside an arena the node is well-formed for.
    pub proof fn lemma_advance_in_bounds(self, c: char, len: nat)
        requires
            node_wf(self, len),
        ensures
            next_of(self, c) matches Some(t) ==> t < len,
    {
        match self.policy {
            Policy::Table { edges } => {
                lemma_lookup_in_targets(edges@, c, 0, len);
            },
            Policy::Rule { edges, .. } => {
                lemma_lookup_in_targets(edges@, c, 0, len);
            },
        }
    }
}

proof fn lemma_lookup_in_targets(edges: Seq<(char, usize)>, c: char, i: nat, len: nat)
    requires
        forall|j: int| 0 <= j < edges.len() ==> (#[trigger] edges[j]).1 < len,
    ensures
        lookup_from(edges, c, i) matches Some(t) ==> t < len,
    decreases edges.len() - i,
{
    if i < edges.len() && edges[i as int].0 != c {
        lemma_lookup_in_targets(edges, c, i + 1, len);
    }
}

} // verus!

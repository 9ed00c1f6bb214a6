//! The automaton driver: a single left-to-right pass that consumes one
//! symbol per step and yields the terminal state, plus the laws that hold of
//! every run (determinism, identity on empty input, absorption, totality of
//! rule-based graphs).

use vstd::prelude::*;

use crate::graph::{Fault, Node, next_of, node_wf};

verus! {

/// One step of the driver: the successor of state `s` on symbol `c`, or
/// `None` when `s` lies outside the arena or has no transition for `c`.
pub open spec fn step(nodes: Seq<Node>, s: usize, c: char) -> Option<usize> {
    if s < nodes.len() {
        next_of(nodes[s as int], c)
    } else {
        None
    }
}

/// The walk from state `s` over the suffix of `w` that starts at `i`:
/// the terminal state, or the first lookup fault met on the way.
pub open spec fn run_from(nodes: Seq<Node>, s: usize, w: Seq<char>, i: nat) -> Result<
    usize,
    Fault,
>
    decreases w.len() - i,
{
    if i >= w.len() {
        Ok(s)
    } else {
        match step(nodes, s, w[i as int]) {
            Some(t) => run_from(nodes, t, w, i + 1),
            None => Err(Fault { state: s, symbol: w[i as int] }),
        }
    }
}

/// The terminal state of walking the whole of `w` from `s`, or the first
/// lookup fault. Empty input terminates at `s` itself.
pub open spec fn spec_run(nodes: Seq<Node>, s: usize, w: Seq<char>) -> Result<usize, Fault> {
    run_from(nodes, s, w, 0)
}

/// Every successor any node of the arena can name lies inside the arena.
pub open spec fn graph_wf(nodes: Seq<Node>) -> bool {
    forall|i: int| 0 <= i < nodes.len() ==> node_wf(#[trigger] nodes[i], nodes.len())
}

/// Every node decides by a `Rule` policy, whose declared fallback makes its
/// transition total over all symbols.
pub open spec fn rule_based(nodes: Seq<Node>) -> bool {
    forall|i: int| 0 <= i < nodes.len() ==> (#[trigger] nodes[i]).policy is Rule
}

/// An absorbing state: every symbol leads straight back to it.
pub open spec fn absorbing(nodes: Seq<Node>, s: usize) -> bool {
    forall|c: char| step(nodes, s, c) == Some(s)
}

/// Drive the automaton: starting at `entry`, replace the current state by
/// its successor once per symbol of `input`, in order, and return the state
/// left when the input is exhausted. The driver itself never fails; an `Err`
/// only reports, unchanged, the first state and symbol without a transition.
pub fn run(nodes: &Vec<Node>, entry: usize, input: &str) -> (r: Result<usize, Fault>)
    ensures
        r == spec_run(nodes@, entry, input@),
{
    let n: usize = input.unicode_len();
    let mut current: usize = entry;
    let mut i: usize = 0;
    while i < n
        invariant
            n == input@.len(),
            i <= n,
            spec_run(nodes@, entry, input@) == run_from(nodes@, current, input@, i as nat),
        decreases n - i,
    {
        let c = input.get_char(i);
        if current >= nodes.len() {
            return Err(Fault { state: current, symbol: c });
        }
        let node = &nodes[current];
        match node.advance(c) {
            Some(t) => {
                current = t;
            },
            None => {
                return Err(Fault { state: current, symbol: c });
            },
        }
        i = i + 1;
    }
    Ok(current)
}

/// A state graph: an arena of interconnected states, built once by the
/// caller and then read-only, with the drive loop bound to it.
pub trait Grammar {
    /// The arena of states this graph owns.
    spec fn arena(&self) -> Seq<Node>;

    /// The nodes of the graph, exactly as `arena` describes them.
    fn nodes(&self) -> (r: &Vec<Node>)
        ensures
            r@ == self.arena(),
    ;

    /// Walk the graph from `initial` over the whole of `s` and return the
    /// terminal state's index, or the first lookup fault met on the way.
    fn parse(&self, initial: usize, s: &str) -> (r: Result<usize, Fault>)
        ensures
            r == spec_run(self.arena(), initial, s@),
    {
        run(self.nodes(), initial, s)
    }
}

/// Identity on empty input: a run over no symbols terminates at the entry
/// state itself, for any graph and any entry state.
pub proof fn lemma_run_empty(nodes: Seq<Node>, s: usize)
    ensures
        spec_run(nodes, s, Seq::<char>::empty()) == Ok::<usize, Fault>(s),
{
}

/// Determinism: the outcome of a run is a function of the graph, the entry
/// state and the input alone, so two runs of the same input from the same
/// entry agree — and, when they terminate, on the terminal state's name too.
pub proof fn lemma_run_deterministic(
    nodes: Seq<Node>,
    s: usize,
    w: Seq<char>,
    r1: Result<usize, Fault>,
    r2: Result<usize, Fault>,
)
    requires
        r1 == spec_run(nodes, s, w),
        r2 == spec_run(nodes, s, w),
    ensures
        r1 == r2,
        r1 matches Ok(t1) ==> (r2 matches Ok(t2) && nodes[t1 as int].name@ == nodes[t2 as int].name@),
{
}

/// Absorption: once the current state is absorbing — as the error state of a
/// graph is — every remaining input leaves the run there, without a fault.
pub proof fn lemma_absorption(nodes: Seq<Node>, s: usize, w: Seq<char>)
    requires
        absorbing(nodes, s),
    ensures
        spec_run(nodes, s, w) == Ok::<usize, Fault>(s),
{
    lemma_absorption_from(nodes, s, w, 0);
}

proof fn lemma_absorption_from(nodes: Seq<Node>, s: usize, w: Seq<char>, i: nat)
    requires
        absorbing(nodes, s),
    ensures
        run_from(nodes, s, w, i) == Ok::<usize, Fault>(s),
    decreases w.len() - i,
{
    if i < w.len() {
        lemma_absorption_from(nodes, s, w, i + 1);
    }
}

/// Totality of rule-based graphs: from any state of a well-formed graph
/// whose every node decides by rule, no input ever faults — the run always
/// terminates in a state of the graph.
pub proof fn lemma_rule_based_total(nodes: Seq<Node>, s: usize, w: Seq<char>)
    requires
        graph_wf(nodes),
        rule_based(nodes),
        s < nodes.len(),
    ensures
        spec_run(nodes, s, w) matches Ok(t) && t < nodes.len(),
{
    lemma_rule_based_total_from(nodes, s, w, 0);
}

proof fn lemma_rule_based_total_from(nodes: Seq<Node>, s: usize, w: Seq<char>, i: nat)
    requires
        graph_wf(nodes),
        rule_based(nodes),
        s < nodes.len(),
    ensures
        run_from(nodes, s, w, i) matches Ok(t) && t < nodes.len(),
    decreases w.len() - i,
{
    if i < w.len() {
        let c = w[i as int];
        assert(nodes[s as int].policy is Rule);
        nodes[s as int].lemma_advance_in_bounds(c, nodes.len());
        match step(nodes, s, c) {
            Some(t) => {
                lemma_rule_based_total_from(nodes, t, w, i + 1);
            },
            None => {},
        }
    }
}

} // verus!

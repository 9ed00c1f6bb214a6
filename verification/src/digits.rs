//! The two-state binary-digit grammar: the "digit" state self-loops on '0'
//! and '1' and falls to "error" on every other symbol; "error" is absorbing.

use vstd::prelude::*;

use crate::driver::{Grammar, absorbing, graph_wf, rule_based, run_from, spec_run, step};
use crate::graph::{Fault, Node, Policy, lookup_from};

verus! {

/// True of the symbols the "digit" state accepts.
pub open spec fn is_binary_digit(c: char) -> bool {
    c == '0' || c == '1'
}

/// Arena index of the "digit" state, the grammar's entry state.
pub const DIGIT: usize = 0;

/// Arena index of the absorbing "error" state.
pub const ERROR: usize = 1;

/// A grammar recognising strings of binary digits: a run that stays in
/// "digit" saw only '0' and '1'; one invalid symbol drops it into "error"
/// for good.
pub struct DigitGrammar {
    nodes: Vec<Node>,
}

impl Grammar for DigitGrammar {
    closed spec fn arena(&self) -> Seq<Node> {
        self.nodes@
    }

    fn nodes(&self) -> (r: &Vec<Node>) {
        &self.nodes
    }
}

impl Default for DigitGrammar {
    /// Builds the two-state graph. Both states decide by rule, so the graph
    /// is total: no input can ever raise a lookup fault on it.
    fn default() -> (r: Self)
        ensures
            r.arena().len() == 2,
            r.arena()[DIGIT as int].name@ == "digit"@,
            r.arena()[ERROR as int].name@ == "error"@,
            graph_wf(r.arena()),
            rule_based(r.arena()),
            forall|c: char|
                step(r.arena(), DIGIT, c) == (if is_binary_digit(c) {
                    Some(DIGIT)
                } else {
                    Some(ERROR)
                }),
            absorbing(r.arena(), ERROR),
    {
        let mut digit_edges: Vec<(char, usize)> = Vec::new();
        digit_edges.push(('0', DIGIT));
        digit_edges.push(('1', DIGIT));
        let mut nodes: Vec<Node> = Vec::new();
        nodes.push(Node::new("digit", Policy::Rule { edges: digit_edges, fallback: ERROR }));
        nodes.push(Node::new("error", Policy::Rule { edges: Vec::new(), fallback: ERROR }));
        let r = DigitGrammar { nodes };
        proof {
            assert forall|c: char|
                step(r.arena(), DIGIT, c) == (if is_binary_digit(c) {
                    Some(DIGIT)
                } else {
                    Some(ERROR)
                }) by {
                reveal_with_fuel(lookup_from, 4);
            }
            assert forall|c: char| step(r.arena(), ERROR, c) == Some(ERROR) by {
                reveal_with_fuel(lookup_from, 2);
            }
        }
        r
    }
}

/// Classification of digit-grammar runs: from the entry state of any graph
/// whose "digit" state self-loops exactly on the binary digits and whose
/// "error" state absorbs, a run never faults, terminates in "digit" exactly
/// when every input symbol was a binary digit, and in "error" otherwise.
pub proof fn lemma_digit_classification(nodes: Seq<Node>, w: Seq<char>)
    requires
        forall|c: char|
            step(nodes, DIGIT, c) == (if is_binary_digit(c) {
                Some(DIGIT)
            } else {
                Some(ERROR)
            }),
        absorbing(nodes, ERROR),
    ensures
        spec_run(nodes, DIGIT, w) == Ok::<usize, Fault>(
            if (forall|i: int| 0 <= i < w.len() ==> is_binary_digit(#[trigger] w[i])) {
                DIGIT
            } else {
                ERROR
            },
        ),
{
    lemma_digit_classification_from(nodes, w, DIGIT, 0);
}

proof fn lemma_digit_classification_from(nodes: Seq<Node>, w: Seq<char>, s: usize, i: nat)
    requires
        forall|c: char|
            step(nodes, DIGIT, c) == (if is_binary_digit(c) {
                Some(DIGIT)
            } else {
                Some(ERROR)
            }),
        absorbing(nodes, ERROR),
        s == DIGIT || s == ERROR,
    ensures
        run_from(nodes, s, w, i) == Ok::<usize, Fault>(
            if s == DIGIT && (forall|j: int| i <= j < w.len() ==> is_binary_digit(#[trigger] w[j])) {
                DIGIT
            } else {
                ERROR
            },
        ),
    decreases w.len() - i,
{
    if i < w.len() {
        let c = w[i as int];
        if s == DIGIT && is_binary_digit(c) {
            lemma_digit_classification_from(nodes, w, DIGIT, i + 1);
        } else if s == DIGIT {
            lemma_digit_classification_from(nodes, w, ERROR, i + 1);
            assert(!is_binary_digit(w[i as int]));
        } else {
            lemma_digit_classification_from(nodes, w, ERROR, i + 1);
        }
    }
}

} // verus!

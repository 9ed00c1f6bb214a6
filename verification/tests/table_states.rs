use fsa::driver::run;
use fsa::graph::{Node, Policy};

fn digit_table_graph() -> Vec<Node> {
    // A table built only for '0' and '1', both mapping "digit" to itself:
    // any other symbol is a lookup fault, not a transition.
    let edges = vec![('0', 0), ('1', 0)];
    vec![Node::new("digit", Policy::Table { edges })]
}

#[test]
fn table_accepts_mapped_symbols() {
    let nodes = digit_table_graph();
    let result = run(&nodes, 0, "00110110").unwrap();
    assert_eq!(result, 0);
    assert_eq!(nodes[result].name, "digit");
}

#[test]
fn table_faults_on_unmapped_symbol() {
    let nodes = digit_table_graph();
    let fault = run(&nodes, 0, "00110d110").unwrap_err();
    assert_eq!(fault.state, 0);
    assert_eq!(fault.symbol, 'd');
}

#[test]
fn table_fault_reports_first_stuck_step() {
    let nodes = digit_table_graph();
    let fault = run(&nodes, 0, "x1").unwrap_err();
    assert_eq!(fault.state, 0);
    assert_eq!(fault.symbol, 'x');
}

#[test]
fn entry_outside_arena_faults_on_first_symbol() {
    let nodes = digit_table_graph();
    let fault = run(&nodes, 7, "0").unwrap_err();
    assert_eq!(fault.state, 7);
    assert_eq!(fault.symbol, '0');
}

#[test]
fn entry_outside_arena_with_empty_input_is_identity() {
    let nodes = digit_table_graph();
    assert_eq!(run(&nodes, 7, "").unwrap(), 7);
}

#[test]
fn advance_follows_the_policy() {
    let nodes = digit_table_graph();
    assert_eq!(nodes[0].advance('0'), Some(0));
    assert_eq!(nodes[0].advance('1'), Some(0));
    assert_eq!(nodes[0].advance('d'), None);
}

#[test]
fn rule_fallback_covers_unmapped_symbols() {
    let edges = vec![('a', 0)];
    let node = Node::new("start", Policy::Rule { edges, fallback: 1 });
    assert_eq!(node.advance('a'), Some(0));
    assert_eq!(node.advance('z'), Some(1));
}

#[test]
fn first_matching_edge_wins() {
    let edges = vec![('a', 2), ('a', 3)];
    let node = Node::new("start", Policy::Table { edges });
    assert_eq!(node.advance('a'), Some(2));
}

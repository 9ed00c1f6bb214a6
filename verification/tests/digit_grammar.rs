use fsa::digits::{DigitGrammar, DIGIT, ERROR};
use fsa::driver::Grammar;

#[test]
fn test_parse() {
    let example = "00110110";
    let grammar: DigitGrammar = Default::default();
    let result = grammar.parse(DIGIT, example).unwrap();
    assert_eq!(grammar.nodes()[result].name, "digit");
}

#[test]
fn test_parse_fail() {
    let example = "00110d110";
    let grammar: DigitGrammar = Default::default();
    let result = grammar.parse(DIGIT, example).unwrap();
    assert_eq!(grammar.nodes()[result].name, "error");
}

#[test]
fn empty_input_returns_entry_state() {
    let grammar: DigitGrammar = Default::default();
    let result = grammar.parse(DIGIT, "").unwrap();
    assert_eq!(result, DIGIT);
    assert_eq!(grammar.nodes()[result].name, "digit");
}

#[test]
fn run_is_deterministic() {
    let grammar: DigitGrammar = Default::default();
    let first = grammar.parse(DIGIT, "0110x01").unwrap();
    let second = grammar.parse(DIGIT, "0110x01").unwrap();
    assert_eq!(first, second);
    assert_eq!(grammar.nodes()[first].name, grammar.nodes()[second].name);
}

#[test]
fn error_state_absorbs_valid_digits() {
    let grammar: DigitGrammar = Default::default();
    let result = grammar.parse(ERROR, "0101").unwrap();
    assert_eq!(result, ERROR);
    assert_eq!(grammar.nodes()[result].name, "error");
}

#[test]
fn rule_based_graph_never_faults() {
    let grammar: DigitGrammar = Default::default();
    assert!(grammar.parse(DIGIT, "!@# \u{263a} 42").is_ok());
    assert!(grammar.parse(ERROR, "anything at all").is_ok());
}

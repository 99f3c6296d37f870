//! Tests of the S-expression reader and the `def` rule mechanism.

use jssat::sexpr::{node_eq, parse_to_nodes, parse_with_rule_application, Node, SexprError};

fn nodes_eq(a: &Vec<Node>, b: &Vec<Node>) -> bool {
    a.len() == b.len() && a.iter().zip(b.iter()).all(|(x, y)| node_eq(x, y))
}

fn parse_both(code: &str, yields: &str) {
    let got = parse_with_rule_application(parse_to_nodes(code).unwrap()).unwrap();
    let expected = parse_to_nodes(yields).unwrap();
    assert!(
        nodes_eq(&got, &expected),
        "rule application of {:?} gave {:?}, expected {:?}",
        code,
        got,
        expected
    );
}

#[test]
fn identity() {
    let id = |x| parse_both(x, x);

    id("f x");
    id("(whatever-idk)");
    id("(a (s) (d) (fff))");
}

#[test]
fn obeys_rule_order() {
    parse_both("(def x y) x", "y");
    parse_both("x (def x y)", "x");
    parse_both("x (def x y) x", "x y");
    parse_both("x y (def y x) x y (def x y) x y", "x y x x y y");
}

#[test]
fn applies_rules_to_node() {
    parse_both(
        r#"
(def x y)

(x
    x
    (x)
    (x))
"#,
        "(y y (y) (y))",
    );
}

#[test]
pub fn parses_word() {
    let nodes = parse_to_nodes("an-example-word").unwrap();
    assert_eq!(nodes.len(), 1);
    assert!(matches!(&nodes[0], Node::Word(a) if a == "an-example-word"));
}

#[test]
pub fn parses_atom() {
    let nodes = parse_to_nodes(":example-atom :6.1.7.2").unwrap();
    assert_eq!(nodes.len(), 2);
    assert!(matches!(&nodes[0], Node::Atom(a) if a == "example-atom"));
    assert!(matches!(&nodes[1], Node::Atom(a) if a == "6.1.7.2"));
}

#[test]
pub fn parses_string() {
    let nodes = parse_to_nodes(r#""example of a string""#).unwrap();
    assert_eq!(nodes.len(), 1);
    assert!(matches!(&nodes[0], Node::Text(a) if a == "example of a string"));
}

#[test]
pub fn parses_parent() {
    let nodes = parse_to_nodes(r#"(a :b "c")"#).unwrap();
    assert_eq!(nodes.len(), 1);
    assert!(matches!(&nodes[0], Node::Parent(a) if a.len() == 3));
}

#[test]
pub fn parses_empty_parent() {
    let nodes = parse_to_nodes("()").unwrap();
    assert_eq!(nodes.len(), 1);
    assert!(matches!(&nodes[0], Node::Parent(a) if a.is_empty()));
}

#[test]
fn parses_integers() {
    let nodes = parse_to_nodes("69 -42 0").unwrap();
    assert_eq!(nodes.len(), 3);
    assert!(matches!(&nodes[0], Node::Integer(69)));
    assert!(matches!(&nodes[1], Node::Integer(-42)));
    assert!(matches!(&nodes[2], Node::Integer(0)));
}

#[test]
fn skips_comments() {
    let nodes = parse_to_nodes("a ; the rest of this line vanishes\nb").unwrap();
    assert_eq!(nodes.len(), 2);
    assert!(matches!(&nodes[0], Node::Word(a) if a == "a"));
    assert!(matches!(&nodes[1], Node::Word(b) if b == "b"));
}

#[test]
fn rejects_unbalanced_input() {
    assert!(matches!(parse_to_nodes("(a"), Err(SexprError::UnclosedParen)));
    assert!(matches!(parse_to_nodes("a)"), Err(SexprError::UnexpectedClose)));
    assert!(matches!(parse_to_nodes("\"oops"), Err(SexprError::UnclosedString)));
}

#[test]
fn rejects_non_ascii_input() {
    assert!(matches!(parse_to_nodes("héllo"), Err(SexprError::NonAscii)));
}

#[test]
fn rejects_floating_numbers() {
    assert!(matches!(parse_to_nodes("6.9"), Err(SexprError::UnsupportedNumber)));
}

#[test]
fn rejects_huge_integers() {
    assert!(matches!(
        parse_to_nodes("99999999999999999999"),
        Err(SexprError::IntegerOverflow)
    ));
}

#[test]
fn rejects_malformed_def() {
    let nodes = parse_to_nodes("(def x)").unwrap();
    assert!(matches!(
        parse_with_rule_application(nodes),
        Err(SexprError::MalformedDef)
    ));
}

#[test]
fn node_eq_ignores_nothing_structural() {
    let a = parse_to_nodes("(a (b) 3 :c \"d\")").unwrap();
    let b = parse_to_nodes("(a (b) 3 :c \"d\")").unwrap();
    let c = parse_to_nodes("(a (b) 4 :c \"d\")").unwrap();
    assert!(nodes_eq(&a, &b));
    assert!(!nodes_eq(&a, &c));
}

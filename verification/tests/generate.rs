use dumpgen::generate::{conclude, plan, process};
use dumpgen::report::Failure;
use dumpgen::tree::{Node, NodeKind, Origin};

fn decl(kind: NodeKind, name: &str, origin: Origin, children: Vec<Node>) -> Node {
    Node {
        kind,
        display_name: Some(name.to_string()),
        location: Some(origin),
        type_display: Some(name.to_string()),
        children,
    }
}

fn member(name: &str) -> Node {
    decl(NodeKind::Field, name, Origin::Primary, vec![])
}

fn file_root(children: Vec<Node>) -> Node {
    Node {
        kind: NodeKind::Other,
        display_name: Some("point.hpp".to_string()),
        location: None,
        type_display: None,
        children,
    }
}

fn point_unit() -> Node {
    file_root(vec![decl(
        NodeKind::Struct,
        "Point",
        Origin::Primary,
        vec![member("x"), member("y")],
    )])
}

#[test]
fn point_scenario() {
    let text = process(&point_unit(), "Point", "std::ostream").expect("Point is declared");
    let mut lines = text.lines();
    assert_eq!(
        lines.next(),
        Some("friend std::ostream& operator<<(std::ostream& os, const Point& obj);")
    );
    assert_eq!(
        lines.next(),
        Some("std::ostream& operator<<(std::ostream& os, const Point& obj) {")
    );
    assert_eq!(lines.next(), Some("\tos << \"Point (\""));
    assert_eq!(lines.next(), Some("\t\t<< \"x: \" << x << \", \""));
    assert_eq!(lines.next(), Some("\t\t<< \"y: \" << y"));
    assert_eq!(lines.next(), Some("\t<< \")\";"));
    assert_eq!(lines.next(), Some("\treturn os;"));
    assert_eq!(lines.next(), Some("}"));
    assert_eq!(lines.next(), None);
}

#[test]
fn missing_scenario() {
    assert_eq!(process(&point_unit(), "Missing", "std::ostream"), None);
}

#[test]
fn dup_scenario() {
    let root = file_root(vec![
        decl(NodeKind::Struct, "Dup", Origin::Primary, vec![member("old")]),
        decl(NodeKind::Struct, "Dup", Origin::Primary, vec![member("new")]),
    ]);
    let text = process(&root, "Dup", "std::ostream").expect("Dup is declared");
    assert!(text.contains("\t\t<< \"new: \" << new\n"));
    assert!(!text.contains("old"));
}

#[test]
fn included_only_generates_nothing() {
    let root = file_root(vec![decl(
        NodeKind::Struct,
        "Point",
        Origin::Included,
        vec![member("x"), member("y")],
    )]);
    assert_eq!(process(&root, "Point", "std::ostream"), None);
}

#[test]
fn stream_type_is_used_in_both_signatures() {
    let text = process(&point_unit(), "Point", "QDebug").expect("Point is declared");
    assert_eq!(text.matches("QDebug& operator<<(QDebug& os, const Point& obj)").count(), 2);
    assert!(!text.contains("std::ostream"));
}

#[test]
fn empty_record_generates_degenerate_body() {
    let root = file_root(vec![decl(NodeKind::Class, "Empty", Origin::Primary, vec![])]);
    let text = process(&root, "Empty", "std::ostream").expect("Empty is declared");
    assert!(text.contains("\tos << \"Empty (\"\n\t<< \")\";\n"));
}

#[test]
fn running_twice_gives_the_same_text() {
    let first = process(&point_unit(), "Point", "std::ostream");
    let second = process(&point_unit(), "Point", "std::ostream");
    assert!(first.is_some());
    assert_eq!(first, second);
}

#[test]
fn standard_argument_prefixes_the_year() {
    assert_eq!(dumpgen::generate::standard_argument("11"), "-std=c++11");
    assert_eq!(dumpgen::generate::standard_argument("17"), "-std=c++17");
    assert_eq!(dumpgen::generate::standard_argument(""), "-std=c++");
}

#[test]
fn plan_asks_the_parser_for_an_existing_file() {
    match plan(true, "17") {
        Ok(flag) => assert_eq!(flag, "-std=c++17"),
        Err(failure) => panic!("unexpected failure: {:?}", failure),
    }
}

#[test]
fn plan_stops_on_a_missing_file() {
    assert!(matches!(plan(false, "11"), Err(Failure::InputNotFound)));
}

#[test]
fn conclude_generates_for_a_match() {
    let expected = process(&point_unit(), "Point", "std::ostream").expect("Point is declared");
    match conclude(Ok(point_unit()), "Point", "std::ostream") {
        Ok(text) => assert_eq!(text, expected),
        Err(failure) => panic!("unexpected failure: {:?}", failure),
    }
}

#[test]
fn conclude_reports_a_missing_declaration() {
    let outcome = conclude(Ok(point_unit()), "Missing", "std::ostream");
    assert!(matches!(outcome, Err(Failure::DeclarationNotFound)));
}

#[test]
fn conclude_hands_on_the_parser_message() {
    let outcome = conclude(Err("syntax error".to_string()), "Point", "std::ostream");
    match outcome {
        Err(Failure::ParseFailure(detail)) => assert_eq!(detail, "syntax error"),
        other => panic!("unexpected outcome: {:?}", other),
    }
}

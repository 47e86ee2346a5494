use dumpgen::generate::process;
use dumpgen::report::{diagnostic, Failure};
use dumpgen::tree::{Node, NodeKind, Origin};

#[test]
fn missing_declaration_is_reported_with_name_and_path() {
    let root = Node {
        kind: NodeKind::Other,
        display_name: None,
        location: None,
        type_display: None,
        children: vec![Node {
            kind: NodeKind::Struct,
            display_name: Some("Point".to_string()),
            location: Some(Origin::Primary),
            type_display: Some("Point".to_string()),
            children: vec![],
        }],
    };
    assert_eq!(process(&root, "Missing", "std::ostream"), None);
    let text = diagnostic(&Failure::DeclarationNotFound, "include/point.hpp", "Missing");
    assert_eq!(text, "class/struct Missing did not find in include/point.hpp");
}

#[test]
fn missing_input_is_reported_with_path() {
    let text = diagnostic(&Failure::InputNotFound, "nowhere.hpp", "Point");
    assert_eq!(text, "Unable to find nowhere.hpp");
}

#[test]
fn parse_failure_is_reported_with_the_parser_message() {
    let failure = Failure::ParseFailure("an AST deserialization error occurred".to_string());
    let text = diagnostic(&failure, "broken.hpp", "Point");
    assert_eq!(text, "Unable to parse broken.hpp: an AST deserialization error occurred");
}

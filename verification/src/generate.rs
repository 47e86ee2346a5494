//! Search and emission in one step: from a declaration tree to the
//! generated text.

use vstd::prelude::*;
use vstd::string::StringExecFns;
use crate::emit::{dump_op, gen_dump_op};
use crate::locate::{gen_fields_list, has_match, locate};
use crate::report::{Cause, Failure};
use crate::tree::{opt_text, Decl, Node};

verus! {

/// The text generated for the class or struct `name` of the tree `root`, or
/// `None` where the search finds no such declaration.
pub open spec fn generated(root: Decl, name: Seq<char>, stream: Seq<char>) -> Option<Seq<char>> {
    match locate(root, name) {
        Some(found) => Some(dump_op(stream, found.object_type, name, found.fields)),
        None => None,
    }
}

/// The parser argument that selects the C++ standard `std`.
pub open spec fn standard_flag(std: Seq<char>) -> Seq<char> {
    "-std=c++"@ + std
}

/// The argument that makes the parser read the file as C++ of the standard
/// `std`, such as `11` or `17`.
pub fn standard_argument(std: &str) -> (flag: String)
    ensures
        flag@ == standard_flag(std@),
{
    let mut flag = "-std=c++".to_owned();
    flag.append(std);
    flag
}

/// Searches `root` for the class or struct `name` and renders its dump
/// operator over the stream type `stream_type`.
///
/// Nothing is generated exactly when the search reaches no match.
pub fn process(root: &Node, name: &str, stream_type: &str) -> (text: Option<String>)
    ensures
        opt_text(text) == generated(root@, name@, stream_type@),
        text.is_none() <==> !has_match(root@, name@),
{
    match gen_fields_list(root, name) {
        None => None,
        Some(found) => Some(
            gen_dump_op(stream_type, found.object_type.as_str(), name, &found.fields),
        ),
    }
}

/// The model of what the parser hands back: the tree, or its own message.
pub open spec fn parsed_model(parsed: Result<Node, String>) -> Result<Decl, Seq<char>> {
    match parsed {
        Ok(root) => Ok(root@),
        Err(detail) => Err(detail@),
    }
}

/// The model of how a run ends: with the generated text, or with the reason
/// for which there is none.
pub open spec fn outcome_model(outcome: Result<String, Failure>) -> Result<Seq<char>, Cause> {
    match outcome {
        Ok(text) => Ok(text@),
        Err(failure) => Err(failure@),
    }
}

/// How a run ends once the parser has answered: a parse failure ends it with
/// the parser's message, a search without a match ends it as well, and
/// otherwise the text is generated.
pub open spec fn concluded(
    parsed: Result<Decl, Seq<char>>,
    name: Seq<char>,
    stream: Seq<char>,
) -> Result<Seq<char>, Cause> {
    match parsed {
        Err(detail) => Err(Cause::ParseFailure(detail)),
        Ok(root) => match generated(root, name, stream) {
            Some(text) => Ok(text),
            None => Err(Cause::DeclarationNotFound),
        },
    }
}

/// The parser argument for a run on an input file: nothing is asked of the
/// parser where the file does not exist.
pub open spec fn planned(input_exists: bool, std: Seq<char>) -> Result<Seq<char>, Cause> {
    if input_exists {
        Ok(standard_flag(std))
    } else {
        Err(Cause::InputNotFound)
    }
}

/// Decides whether the parser is asked at all, and with which argument.
pub fn plan(input_exists: bool, std: &str) -> (request: Result<String, Failure>)
    ensures
        outcome_model(request) == planned(input_exists, std@),
{
    if input_exists {
        Ok(standard_argument(std))
    } else {
        Err(Failure::InputNotFound)
    }
}

/// Ends a run from what the parser handed back: the generated text, or the
/// failure to report. Text is generated exactly when the file was parsed and
/// the search reaches a match.
pub fn conclude(parsed: Result<Node, String>, name: &str, stream_type: &str) -> (outcome: Result<
    String,
    Failure,
>)
    ensures
        outcome_model(outcome) == concluded(parsed_model(parsed), name@, stream_type@),
        outcome.is_ok() <==> parsed.is_ok() && has_match(parsed.unwrap()@, name@),
{
    match parsed {
        Err(detail) => Err(Failure::ParseFailure(detail)),
        Ok(root) => match process(&root, name, stream_type) {
            Some(text) => Ok(text),
            None => Err(Failure::DeclarationNotFound),
        },
    }
}

/// Trees with the same model, searched for the same name and rendered over
/// the same stream type, give the same text or both give none.
pub proof fn lemma_same_input_same_text(
    first: Node,
    second: Node,
    name: Seq<char>,
    stream: Seq<char>,
)
    requires
        first@ == second@,
    ensures
        generated(first@, name, stream) == generated(second@, name, stream),
{
}

/// A tree without a reachable match generates nothing, whatever the stream
/// type.
pub proof fn lemma_no_match_no_text(root: Decl, name: Seq<char>, stream: Seq<char>)
    ensures
        !has_match(root, name) <==> generated(root, name, stream).is_none(),
{
    crate::locate::lemma_none_iff_no_match(root, name);
}

} // verus!

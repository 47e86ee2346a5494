//! Why a run generates nothing, and what is reported then.
//!
//! Every failure ends the run: nothing is retried and no text is
//! generated, so the generated code never shares a channel with a
//! diagnostic.

use vstd::prelude::*;
use vstd::string::StringExecFns;

verus! {

/// The reason for which a run ends without generated code.
#[derive(Debug)]
pub enum Failure {
    /// The source path does not exist.
    InputNotFound,
    /// The parser could not read the file; holds the parser's own message.
    ParseFailure(String),
    /// The search came back without a match.
    DeclarationNotFound,
}

/// The model of a [`Failure`].
pub ghost enum Cause {
    InputNotFound,
    ParseFailure(Seq<char>),
    DeclarationNotFound,
}

impl View for Failure {
    type V = Cause;

    open spec fn view(&self) -> Cause {
        match self {
            Failure::InputNotFound => Cause::InputNotFound,
            Failure::ParseFailure(detail) => Cause::ParseFailure(detail@),
            Failure::DeclarationNotFound => Cause::DeclarationNotFound,
        }
    }
}

/// The diagnostic for `cause`, of a run on the file at `path` for the class
/// or struct `name`.
pub open spec fn diagnostic_text(cause: Cause, path: Seq<char>, name: Seq<char>) -> Seq<char> {
    match cause {
        Cause::InputNotFound => "Unable to find "@ + path,
        Cause::ParseFailure(detail) => "Unable to parse "@ + path + ": "@ + detail,
        Cause::DeclarationNotFound => "class/struct "@ + name + " did not find in "@ + path,
    }
}

/// Renders the diagnostic for `failure`. It always names the file; for a
/// parse failure it ends with the parser's message, and for a search without
/// a match it names the class or struct that was asked for.
pub fn diagnostic(failure: &Failure, path: &str, name: &str) -> (text: String)
    ensures
        text@ == diagnostic_text(failure@, path@, name@),
{
    match failure {
        Failure::InputNotFound => {
            let mut text = "Unable to find ".to_owned();
            text.append(path);
            text
        },
        Failure::ParseFailure(detail) => {
            let mut text = "Unable to parse ".to_owned();
            text.append(path);
            text.append(": ");
            text.append(detail.as_str());
            text
        },
        Failure::DeclarationNotFound => {
            let mut text = "class/struct ".to_owned();
            text.append(name);
            text.append(" did not find in ");
            text.append(path);
            text
        },
    }
}

} // verus!

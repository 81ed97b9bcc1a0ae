use vstd::prelude::*;

use crate::text::{concat, owned};

verus! {

/// Errors reported to the user by the analysis and its commands.
#[derive(Debug, Clone, PartialEq, Eq)]
pub enum Error {
    AlreadyAnalyzed,
    InvalidLabel(String),
    InvalidLabelType,
    InvalidStateExpr,
    InvalidStepSize,
    IOError(String),
    LabelAlreadyUsed(String),
    MissingArg(String),
    NoSelectedSubroutine,
    ParseInt,
    ReservedLabel(String),
    UnknownLabel(String),
}

/// `prefix`, the text in double quotes, and a full stop.
pub open spec fn quoted(prefix: Seq<char>, text: Seq<char>) -> Seq<char> {
    prefix + seq!['"'] + text + seq!['"', '.']
}

/// The message that tells the user about an error.
pub open spec fn message_text(e: Error) -> Seq<char> {
    match e {
        Error::AlreadyAnalyzed => "Address has already been analyzed."@,
        Error::InvalidLabel(l) => quoted("Invalid label "@, l@),
        Error::InvalidLabelType => "Invalid label type."@,
        Error::InvalidStateExpr => "Invalid state expression."@,
        Error::InvalidStepSize => "Can only build groups up to 16 bytes."@,
        Error::IOError(_) => "Error opening file."@,
        Error::LabelAlreadyUsed(l) => quoted("Label already in use "@, l@),
        Error::MissingArg(a) => "Missing argument "@ + a@ + "."@,
        Error::NoSelectedSubroutine => "No selected subroutine."@,
        Error::ParseInt => "Invalid integer value."@,
        Error::ReservedLabel(l) => quoted("Reserved label "@, l@),
        Error::UnknownLabel(l) => quoted("Unknown label "@, l@),
    }
}

/// `prefix`, the text in double quotes, and a full stop.
fn quote(prefix: &str, text: &str) -> (r: String)
    ensures
        r@ == quoted(prefix@, text@),
{
    proof {
        reveal_strlit("\"");
        reveal_strlit("\".");
    }
    let a = concat(prefix, "\"");
    let b = concat(a.as_str(), text);
    let r = concat(b.as_str(), "\".");
    assert(r@ =~= quoted(prefix@, text@));
    r
}

impl Error {
    /// Return the message that tells the user about the error.
    pub fn message(&self) -> (r: String)
        ensures
            r@ == message_text(*self),
    {
        match self {
            Error::AlreadyAnalyzed => owned("Address has already been analyzed."),
            Error::InvalidLabel(l) => quote("Invalid label ", l.as_str()),
            Error::InvalidLabelType => owned("Invalid label type."),
            Error::InvalidStateExpr => owned("Invalid state expression."),
            Error::InvalidStepSize => owned("Can only build groups up to 16 bytes."),
            Error::IOError(_) => owned("Error opening file."),
            Error::LabelAlreadyUsed(l) => quote("Label already in use ", l.as_str()),
            Error::MissingArg(a) => {
                let b = concat("Missing argument ", a.as_str());
                concat(b.as_str(), ".")
            },
            Error::NoSelectedSubroutine => owned("No selected subroutine."),
            Error::ParseInt => owned("Invalid integer value."),
            Error::ReservedLabel(l) => quote("Reserved label ", l.as_str()),
            Error::UnknownLabel(l) => quote("Unknown label ", l.as_str()),
        }
    }
}

/// A result whose error is this library's `Error`.
pub type Result<T> = core::result::Result<T, Error>;

} // verus!

//! What can go wrong with a script, and how it is told to the user.

use crate::text::{headline, headline_is_one_trimmed_line, headline_of};
use vstd::prelude::*;
use vstd::string::*;

verus! {

/// The kinds of i/o failure that a script can meet.
#[derive(Clone, Copy, Debug, PartialEq, Eq, Structural)]
pub enum IoErrorKind {
    /// The script's file could not be read.
    NotFound,
    /// Anything else.
    Other,
}

/// An i/o failure: its kind, and what there is to say of it.
#[derive(Clone, Debug)]
pub struct IoError {
    pub kind: IoErrorKind,
    pub message: String,
}

/// An error of a script.
#[derive(Clone, Debug)]
pub enum ScriptError {
    /// Compilation failed; the string holds rendered diagnostics.
    Compile(String),
    /// A runtime error in a script call.
    Vm(String),
    /// The script doesn't define the requested function.
    MissingFn(String),
    /// The script's file, or its directory, could not be used.
    Io(IoError),
}

/// A script error as a mathematical value.
pub enum ErrorView {
    Compile(Seq<char>),
    Vm(Seq<char>),
    MissingFn(Seq<char>),
    Io(IoErrorKind, Seq<char>),
}

impl View for ScriptError {
    type V = ErrorView;

    open spec fn view(&self) -> ErrorView {
        match self {
            ScriptError::Compile(e) => ErrorView::Compile(e@),
            ScriptError::Vm(e) => ErrorView::Vm(e@),
            ScriptError::MissingFn(name) => ErrorView::MissingFn(name@),
            ScriptError::Io(e) => ErrorView::Io(e.kind, e.message@),
        }
    }
}

/// The text that shows an error.
pub open spec fn error_text(e: ErrorView) -> Seq<char> {
    match e {
        ErrorView::Compile(e) => "script compile error: "@ + e,
        ErrorView::Vm(e) => "script error: "@ + e,
        ErrorView::MissingFn(name) => "script function not found: "@ + name,
        ErrorView::Io(_, e) => "script i/o error: "@ + e,
    }
}

/// The one line of an error's text that the message bar shows.
pub open spec fn error_headline(e: ErrorView) -> Seq<char> {
    headline(error_text(e))
}

/// One text after another.
pub(crate) fn joined(a: &str, b: &str) -> (r: String)
    ensures
        r@ == a@ + b@,
{
    a.to_owned().concat(b)
}

impl ScriptError {
    /// The text that shows the error.
    pub fn to_string(&self) -> (r: String)
        ensures
            r@ == error_text(self@),
    {
        match self {
            ScriptError::Compile(e) => joined("script compile error: ", e.as_str()),
            ScriptError::Vm(e) => joined("script error: ", e.as_str()),
            ScriptError::MissingFn(name) => joined("script function not found: ", name.as_str()),
            ScriptError::Io(e) => joined("script i/o error: ", e.message.as_str()),
        }
    }
}

impl From<IoError> for ScriptError {
    fn from(e: IoError) -> (r: ScriptError) {
        ScriptError::Io(e)
    }
}

impl vstd::std_specs::convert::FromSpecImpl<IoError> for ScriptError {
    open spec fn obeys_from_spec() -> bool {
        true
    }

    open spec fn from_spec(e: IoError) -> ScriptError {
        ScriptError::Io(e)
    }
}

/// First line of an error's text, for the one-line message bar.
pub fn first_line(e: &ScriptError) -> (r: String)
    ensures
        r@ == error_headline(e@),
{
    let text = e.to_string();
    headline_of(text.as_str())
}

/// Errors are shown in full, behind words that tell their kind.
pub proof fn errors_are_shown_in_full(text: Seq<char>, kind: IoErrorKind)
    ensures
        error_text(ErrorView::Compile(text)) == "script compile error: "@ + text,
        error_text(ErrorView::Vm(text)) == "script error: "@ + text,
        error_text(ErrorView::MissingFn(text)) == "script function not found: "@ + text,
        error_text(ErrorView::Io(kind, text)) == "script i/o error: "@ + text,
{
}

/// The message bar gets the headline of an error's whole text.
pub proof fn the_message_bar_gets_the_headline(e: ErrorView)
    ensures
        error_headline(e) == headline(error_text(e)),
        !error_headline(e).contains('\n'),
{
    headline_is_one_trimmed_line(error_text(e));
}

/// An error is seen with its kind and its whole text.
pub proof fn errors_are_seen_as_they_are(text: String, e: IoError)
    ensures
        ScriptError::Compile(text)@ == ErrorView::Compile(text@),
        ScriptError::Vm(text)@ == ErrorView::Vm(text@),
        ScriptError::MissingFn(text)@ == ErrorView::MissingFn(text@),
        ScriptError::Io(e)@ == ErrorView::Io(e.kind, e.message@),
{
}

} // verus!

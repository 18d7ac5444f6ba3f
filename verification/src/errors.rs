//! Error taxonomy of the library.
//!
//! Every recoverable failure of the core is one of these variants; the
//! front-end turns them into on-screen notifications through [`Error::text`].

use vstd::prelude::*;
use vstd::string::StringExecFns;

verus! {

/// A failure of parsing, state lookup, searching or running a command.
#[derive(Debug, Clone, PartialEq)]
pub enum Error {
    /// An action text that no parse rule recognizes.
    ParseAction(String),
    /// A mapping scope name that no parse rule recognizes.
    ParseMappingScope(String),
    /// A `set` directive with an unknown variable or no value.
    ParseVariable(String),
    /// A `button` directive that does not fit the button grammar.
    ParseButton(String),
    /// No selection, or a selection outside the content.
    StateIndex,
    /// A search walked off the content without a further match.
    ReachedLastMachted,
    /// A filename that the current tables do not hold.
    UnknownFilename(String),
    /// A free-form error message.
    Global(String),
    /// Output of the version-control tool that does not parse.
    GitParsing,
    /// The working directory is not inside a repository.
    NotInGitRepo,
    /// The version-control tool exited with a failure.
    GitCommand,
}

/// Mathematical model of an [`Error`].
pub enum ErrorV {
    ParseAction(Seq<char>),
    ParseMappingScope(Seq<char>),
    ParseVariable(Seq<char>),
    ParseButton(Seq<char>),
    StateIndex,
    ReachedLastMachted,
    UnknownFilename(Seq<char>),
    Global(Seq<char>),
    GitParsing,
    NotInGitRepo,
    GitCommand,
}

impl View for Error {
    type V = ErrorV;

    open spec fn view(&self) -> ErrorV {
        match self {
            Error::ParseAction(s) => ErrorV::ParseAction(s@),
            Error::ParseMappingScope(s) => ErrorV::ParseMappingScope(s@),
            Error::ParseVariable(s) => ErrorV::ParseVariable(s@),
            Error::ParseButton(s) => ErrorV::ParseButton(s@),
            Error::StateIndex => ErrorV::StateIndex,
            Error::ReachedLastMachted => ErrorV::ReachedLastMachted,
            Error::UnknownFilename(s) => ErrorV::UnknownFilename(s@),
            Error::Global(s) => ErrorV::Global(s@),
            Error::GitParsing => ErrorV::GitParsing,
            Error::NotInGitRepo => ErrorV::NotInGitRepo,
            Error::GitCommand => ErrorV::GitCommand,
        }
    }
}

/// The message shown for an error model.
pub open spec fn error_text_spec(e: ErrorV) -> Seq<char> {
    match e {
        ErrorV::ParseAction(s) => "unknown action `"@ + s + "`"@,
        ErrorV::ParseMappingScope(s) => "unknown mapping scope `"@ + s + "`"@,
        ErrorV::ParseVariable(s) => "unable to set variable `"@ + s + "`"@,
        ErrorV::ParseButton(s) => "unable to parse button `"@ + s + "`"@,
        ErrorV::StateIndex => "invalid state index"@,
        ErrorV::ReachedLastMachted => "reached last match"@,
        ErrorV::UnknownFilename(s) => "unknown filename `"@ + s + "`"@,
        ErrorV::Global(s) => s,
        ErrorV::GitParsing => "could not properly parse git output"@,
        ErrorV::NotInGitRepo => "not inside a git repository"@,
        ErrorV::GitCommand => "error running a git command"@,
    }
}

fn quoted_message(prefix: &str, payload: &String) -> (r: String)
    ensures
        r@ == prefix@ + payload@ + "`"@,
{
    let mut r = String::from_str(prefix);
    r.append(payload.as_str());
    r.append("`");
    r
}

impl Error {
    /// The user-visible message for this error.
    pub fn text(&self) -> (r: String)
        ensures
            r@ == error_text_spec(self@),
    {
        match self {
            Error::ParseAction(s) => quoted_message("unknown action `", s),
            Error::ParseMappingScope(s) => quoted_message("unknown mapping scope `", s),
            Error::ParseVariable(s) => quoted_message("unable to set variable `", s),
            Error::ParseButton(s) => quoted_message("unable to parse button `", s),
            Error::StateIndex => String::from_str("invalid state index"),
            Error::ReachedLastMachted => String::from_str("reached last match"),
            Error::UnknownFilename(s) => quoted_message("unknown filename `", s),
            Error::Global(s) => s.clone(),
            Error::GitParsing => String::from_str("could not properly parse git output"),
            Error::NotInGitRepo => String::from_str("not inside a git repository"),
            Error::GitCommand => String::from_str("error running a git command"),
        }
    }
}

} // verus!

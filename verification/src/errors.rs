//! What can go wrong with a launch.

use vstd::prelude::*;
use vstd::string::*;

use crate::text::concat3;

verus! {

/// `std::io::Error`, which a launch only carries along.
#[verifier::external_type_specification]
#[verifier::external_body]
pub struct ExIoError(std::io::Error);

/// `serde_json::Error`, which a launch only carries along.
#[verifier::external_type_specification]
#[verifier::external_body]
pub struct ExJsonError(serde_json::Error);

/// Why a launch failed.
#[derive(Debug)]
pub enum LaunchError {
    /// The metadata file with this path does not exist.
    MetaNotFound(String),
    Io(std::io::Error),
    Json(serde_json::Error),
    NotSupported(String),
    Auth(String),
}

impl From<std::io::Error> for LaunchError {
    fn from(error: std::io::Error) -> (launch_error: LaunchError) {
        LaunchError::Io(error)
    }
}

impl vstd::std_specs::convert::FromSpecImpl<std::io::Error> for LaunchError {
    open spec fn obeys_from_spec() -> bool {
        true
    }

    open spec fn from_spec(error: std::io::Error) -> LaunchError {
        LaunchError::Io(error)
    }
}

impl From<serde_json::Error> for LaunchError {
    fn from(error: serde_json::Error) -> (launch_error: LaunchError) {
        LaunchError::Json(error)
    }
}

impl vstd::std_specs::convert::FromSpecImpl<serde_json::Error> for LaunchError {
    open spec fn obeys_from_spec() -> bool {
        true
    }

    open spec fn from_spec(error: serde_json::Error) -> LaunchError {
        LaunchError::Json(error)
    }
}

/// What the user is told of a file error whose own text is `cause`.
pub open spec fn io_message_text(cause: Seq<char>) -> Seq<char> {
    "IO error: "@ + cause
}

/// What the user is told of a parse error whose own text is `cause`.
pub open spec fn json_message_text(cause: Seq<char>) -> Seq<char> {
    "JSON error: "@ + cause
}

/// Whether `text` is what the user is told of `error`. An error of the system
/// or of the parser is quoted in its own words.
pub open spec fn is_message(error: LaunchError, text: Seq<char>) -> bool {
    match error {
        LaunchError::MetaNotFound(path) => text == "Version metadata not found: "@ + path@
            + ". Re-create the instance to fix this."@,
        LaunchError::Io(cause) => exists|words: String| #[trigger]
            to_string_from_display_ensures::<std::io::Error>(&cause, words) && text
                == io_message_text(words@),
        LaunchError::Json(cause) => exists|words: String| #[trigger]
            to_string_from_display_ensures::<serde_json::Error>(&cause, words) && text
                == json_message_text(words@),
        LaunchError::NotSupported(what) => text == what@ + " launch is not yet supported"@,
        LaunchError::Auth(reason) => text == reason@,
    }
}

/// What the user is told of a file error whose own text is `cause`.
pub fn io_message(cause: &str) -> (text: String)
    ensures
        text@ == io_message_text(cause@),
{
    "IO error: ".to_owned().concat(cause)
}

/// What the user is told of a parse error whose own text is `cause`.
pub fn json_message(cause: &str) -> (text: String)
    ensures
        text@ == json_message_text(cause@),
{
    "JSON error: ".to_owned().concat(cause)
}

impl LaunchError {
    /// What the user is told of this error.
    pub fn message(&self) -> (text: String)
        ensures
            is_message(*self, text@),
    {
        match self {
            LaunchError::MetaNotFound(path) => concat3(
                "Version metadata not found: ",
                path.as_str(),
                ". Re-create the instance to fix this.",
            ),
            LaunchError::Io(cause) => {
                let words = cause.to_string();
                io_message(words.as_str())
            },
            LaunchError::Json(cause) => {
                let words = cause.to_string();
                json_message(words.as_str())
            },
            LaunchError::NotSupported(what) => what.clone().concat(" launch is not yet supported"),
            LaunchError::Auth(reason) => reason.clone(),
        }
    }
}

/// The user is told which file is missing and what to do about it, what is not
/// supported, and why authentication failed; errors of the system and of the
/// parser are told apart and quoted.
pub proof fn law_users_are_told_what_went_wrong(error: LaunchError, text: Seq<char>)
    requires
        is_message(error, text),
    ensures
        error matches LaunchError::MetaNotFound(path) ==> text == "Version metadata not found: "@
            + path@ + ". Re-create the instance to fix this."@,
        error matches LaunchError::NotSupported(what) ==> text == what@
            + " launch is not yet supported"@,
        error matches LaunchError::Auth(reason) ==> text == reason@,
        error matches LaunchError::Io(cause) ==> exists|words: String| #[trigger]
            to_string_from_display_ensures::<std::io::Error>(&cause, words) && text
                == "IO error: "@ + words@,
        error matches LaunchError::Json(cause) ==> exists|words: String| #[trigger]
            to_string_from_display_ensures::<serde_json::Error>(&cause, words) && text
                == "JSON error: "@ + words@,
        forall|cause: Seq<char>|
            #![trigger io_message_text(cause)]
            #![trigger json_message_text(cause)]
            io_message_text(cause) == "IO error: "@ + cause && json_message_text(cause)
                == "JSON error: "@ + cause,
{
}

} // verus!

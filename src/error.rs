//! The library's error type.

use vstd::prelude::*;
use crate::text::{concat, debug_of, debug_text, decimal_string, decimal_text};

verus! {

/// Everything that can go wrong while talking to the service or reading what it sent.
#[derive(Clone, Debug)]
#[non_exhaustive]
pub enum Error {
    // Client errors
    UserNotFound { name: Option<String> },
    InvalidLogin,
    ScoreNotFound,
    SongNotFound,
    ChartNotTracked,
    ChartAlreadyFavorited,
    DatabaseError,
    GoalAlreadyExists,
    ChartAlreadyAdded,
    InvalidXml,
    NoUsersFound,
    // External errors
    /// The transport gave up waiting for the service.
    Timeout,
    /// The service still refused the credential after one fresh login.
    Unauthorized,
    /// The transport failed for another reason; its message.
    NetworkError(String),
    /// The service answered 503, 521 or 525: it is down or degraded.
    ServerIsDown { status_code: u16 },
    /// Any other 5xx answer.
    InternalServerError { status_code: u16 },
    /// The text was no JSON of the expected shape; the parser's message.
    InvalidJson(String),
    UnknownApiError(String),
    InvalidDataStructure(String),
    EmptyServerResponse,
}

/// Wraps `inner` as `before` + `inner` + `after`.
pub open spec fn framed(before: Seq<char>, inner: Seq<char>, after: Seq<char>) -> Seq<char> {
    before + inner + after
}

/// The message that describes `e` to a user.
pub open spec fn message_of(e: Error) -> Seq<char> {
    match e {
        Error::UserNotFound { name: Some(name) } => framed("User '"@, name@, "' not found"@),
        Error::UserNotFound { name: None } => "User not found"@,
        Error::InvalidLogin => "Username and password combination not found"@,
        Error::ScoreNotFound => "Score not found"@,
        Error::SongNotFound => "Song not found"@,
        Error::ChartNotTracked => "Chart not tracked"@,
        Error::ChartAlreadyFavorited => "Favorite already exists"@,
        Error::DatabaseError => "Database error"@,
        Error::GoalAlreadyExists => "Goal already exists"@,
        Error::ChartAlreadyAdded => "Chart already exists"@,
        Error::InvalidXml => "The uploaded file is not a valid XML file"@,
        Error::NoUsersFound => "No users registered"@,
        Error::Timeout => "Request timed out"@,
        Error::Unauthorized => "Server kept refusing the credential after a fresh login"@,
        Error::NetworkError(m) => framed("General network error: "@, m@, ""@),
        Error::ServerIsDown { status_code } => framed(
            "EtternaOnline server is down (HTTP "@,
            decimal_text(status_code as nat),
            ")"@,
        ),
        Error::InternalServerError { status_code } => framed(
            "Internal EtternaOnline server error (HTTP "@,
            decimal_text(status_code as nat),
            ")"@,
        ),
        Error::InvalidJson(m) => framed(
            "Error while parsing the json sent by the server ("@,
            m@,
            ")"@,
        ),
        Error::UnknownApiError(m) => framed(
            "Server responded to query with an unrecognized error message ("@,
            m@,
            ")"@,
        ),
        Error::InvalidDataStructure(m) => framed(
            "Server sent a payload that doesn't match expectations (debug: "@,
            debug_of(m@),
            ")"@,
        ),
        Error::EmptyServerResponse => "Server response was empty"@,
    }
}

fn frame(before: &str, inner: &str, after: &str) -> (r: String)
    ensures
        r@ == framed(before@, inner@, after@),
{
    let head = concat(before, inner);
    concat(head.as_str(), after)
}

impl Error {
    /// A message that describes the error to a user.
    pub fn message(&self) -> (r: String)
        ensures
            r@ == message_of(*self),
    {
        match self {
            Error::UserNotFound { name: Some(name) } => frame("User '", name.as_str(), "' not found"),
            Error::UserNotFound { name: None } => String::from_str("User not found"),
            Error::InvalidLogin => String::from_str("Username and password combination not found"),
            Error::ScoreNotFound => String::from_str("Score not found"),
            Error::SongNotFound => String::from_str("Song not found"),
            Error::ChartNotTracked => String::from_str("Chart not tracked"),
            Error::ChartAlreadyFavorited => String::from_str("Favorite already exists"),
            Error::DatabaseError => String::from_str("Database error"),
            Error::GoalAlreadyExists => String::from_str("Goal already exists"),
            Error::ChartAlreadyAdded => String::from_str("Chart already exists"),
            Error::InvalidXml => String::from_str("The uploaded file is not a valid XML file"),
            Error::NoUsersFound => String::from_str("No users registered"),
            Error::Timeout => String::from_str("Request timed out"),
            Error::Unauthorized => String::from_str(
                "Server kept refusing the credential after a fresh login",
            ),
            Error::NetworkError(m) => frame("General network error: ", m.as_str(), ""),
            Error::ServerIsDown { status_code } => {
                let code = decimal_string(*status_code as u64);
                frame("EtternaOnline server is down (HTTP ", code.as_str(), ")")
            },
            Error::InternalServerError { status_code } => {
                let code = decimal_string(*status_code as u64);
                frame("Internal EtternaOnline server error (HTTP ", code.as_str(), ")")
            },
            Error::InvalidJson(m) => frame(
                "Error while parsing the json sent by the server (",
                m.as_str(),
                ")",
            ),
            Error::UnknownApiError(m) => frame(
                "Server responded to query with an unrecognized error message (",
                m.as_str(),
                ")",
            ),
            Error::InvalidDataStructure(m) => {
                let quoted = debug_text(m.as_str());
                frame(
                    "Server sent a payload that doesn't match expectations (debug: ",
                    quoted.as_str(),
                    ")",
                )
            },
            Error::EmptyServerResponse => String::from_str("Server response was empty"),
        }
    }
}

} // verus!

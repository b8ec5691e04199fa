//! The decisions of one logical request: what a response means, and whether
//! to log in again and resend.
//!
//! A request is sent at most twice: when the service rejects the credential,
//! the caller refreshes it and sends once more; a second rejection is an error.

use vstd::prelude::*;
use crate::error::Error;
use crate::text::same_text;

verus! {

/// How the transport failed to deliver a response.
#[derive(Clone, Debug)]
pub enum TransportFailure {
    TimedOut,
    Other(String),
}

/// The body of a response, as the caller read it.
#[derive(Clone, Debug)]
pub enum ResponseBody {
    /// Nothing at all
    Empty,
    /// Not JSON; the parser's message
    Malformed(String),
    /// A JSON value; the title of its first error entry, if it has one
    Json { error_title: Option<String> },
}

/// What to do after a response.
#[derive(Debug)]
pub enum RequestStep {
    /// The response carries the data asked for.
    Deliver,
    /// Refresh the credential and send the request again.
    Reauthorize,
    /// The request failed.
    Fail(Error),
}

/// The service's answers 503, 521 and 525 say that it is down or degraded.
pub open spec fn is_down_status(status: u16) -> bool {
    status == 503 || status == 521 || status == 525
}

/// `e` is the error that an error title names, for a title other than "Unauthorized".
pub open spec fn is_title_error(title: Seq<char>, e: Error) -> bool {
    if title == "Score not found"@ {
        e is ScoreNotFound
    } else if title == "Chart not tracked"@ {
        e is ChartNotTracked
    } else if title == "User not found"@ {
        e matches Error::UserNotFound { name: None }
    } else if title == "Favorite already exists"@ {
        e is ChartAlreadyFavorited
    } else if title == "Database error"@ {
        e is DatabaseError
    } else if title == "Goal already exist"@ {
        e is GoalAlreadyExists
    } else if title == "Chart already exists"@ {
        e is ChartAlreadyAdded
    } else if title == "Malformed XML file"@ {
        e is InvalidXml
    } else if title == "No users found"@ {
        e is NoUsersFound
    } else {
        e matches Error::UnknownApiError(m) && m@ == title
    }
}

/// Maps an error title other than "Unauthorized" to its domain error.
pub fn error_for_title(title: &str) -> (e: Error)
    ensures
        is_title_error(title@, e),
{
    if same_text(title, "Score not found") {
        Error::ScoreNotFound
    } else if same_text(title, "Chart not tracked") {
        Error::ChartNotTracked
    } else if same_text(title, "User not found") {
        Error::UserNotFound { name: None }
    } else if same_text(title, "Favorite already exists") {
        Error::ChartAlreadyFavorited
    } else if same_text(title, "Database error") {
        Error::DatabaseError
    } else if same_text(title, "Goal already exist") {
        Error::GoalAlreadyExists
    } else if same_text(title, "Chart already exists") {
        Error::ChartAlreadyAdded
    } else if same_text(title, "Malformed XML file") {
        Error::InvalidXml
    } else if same_text(title, "No users found") {
        Error::NoUsersFound
    } else {
        Error::UnknownApiError(title.to_owned())
    }
}

/// The step that a response with `status` and `body` calls for; `retried` says
/// whether the request was already sent again after a fresh login.
pub open spec fn is_response_step(
    status: u16,
    body: ResponseBody,
    retried: bool,
    r: RequestStep,
) -> bool {
    if status >= 500 {
        if is_down_status(status) {
            r matches RequestStep::Fail(Error::ServerIsDown { status_code }) && status_code
                == status
        } else {
            r matches RequestStep::Fail(Error::InternalServerError { status_code }) && status_code
                == status
        }
    } else {
        match body {
            ResponseBody::Empty => r matches RequestStep::Fail(Error::EmptyServerResponse),
            ResponseBody::Malformed(m) => r matches RequestStep::Fail(Error::InvalidJson(x))
                && x@ == m@,
            ResponseBody::Json { error_title } => if status < 400 {
                r is Deliver
            } else {
                match error_title {
                    None => r matches RequestStep::Fail(Error::InvalidDataStructure(_)),
                    Some(t) => if t@ == "Unauthorized"@ {
                        if retried {
                            r matches RequestStep::Fail(Error::Unauthorized)
                        } else {
                            r is Reauthorize
                        }
                    } else {
                        r matches RequestStep::Fail(e) && is_title_error(t@, e)
                    },
                }
            },
        }
    }
}

/// Decides what a response means. A rejected credential asks for one fresh
/// login and one resend; after that resend it is an error, so no request is
/// sent more than twice.
pub fn classify_response(status: u16, body: &ResponseBody, retried: bool) -> (r: RequestStep)
    ensures
        is_response_step(status, *body, retried, r),
        retried ==> !(r is Reauthorize),
{
    if status >= 500 {
        if status == 503 || status == 521 || status == 525 {
            return RequestStep::Fail(Error::ServerIsDown { status_code: status });
        } else {
            return RequestStep::Fail(Error::InternalServerError { status_code: status });
        }
    }
    match body {
        ResponseBody::Empty => RequestStep::Fail(Error::EmptyServerResponse),
        ResponseBody::Malformed(m) => RequestStep::Fail(Error::InvalidJson(m.clone())),
        ResponseBody::Json { error_title } => {
            if status < 400 {
                RequestStep::Deliver
            } else {
                match error_title {
                    None => RequestStep::Fail(
                        Error::InvalidDataStructure(String::from_str("error answer without a title")),
                    ),
                    Some(t) => {
                        if same_text(t.as_str(), "Unauthorized") {
                            if retried {
                                RequestStep::Fail(Error::Unauthorized)
                            } else {
                                RequestStep::Reauthorize
                            }
                        } else {
                            RequestStep::Fail(error_for_title(t.as_str()))
                        }
                    },
                }
            }
        },
    }
}

/// The error for a request that got no response.
pub fn transport_error(failure: &TransportFailure) -> (e: Error)
    ensures
        match *failure {
            TransportFailure::TimedOut => e is Timeout,
            TransportFailure::Other(m) => e matches Error::NetworkError(x) && x@ == m@,
        },
{
    match failure {
        TransportFailure::TimedOut => Error::Timeout,
        TransportFailure::Other(m) => Error::NetworkError(m.clone()),
    }
}

/// `e` is the error that an error message of the older API names; `user` is
/// the user the request was about, if any.
pub open spec fn is_message_error(message: Seq<char>, user: Option<Seq<char>>, e: Error) -> bool {
    if message == "Chart not tracked"@ {
        e is ChartNotTracked
    } else if message == "Sepcify a username"@ || message == "User not found"@ || message
        == "Could not find scores for that user"@ {
        e matches Error::UserNotFound { name } && match name {
            Some(n) => user == Some(n@),
            None => user is None,
        }
    } else if message == "No users for specified country"@ {
        e is NoUsersFound
    } else if message == "Score not found"@ {
        e is ScoreNotFound
    } else {
        e matches Error::UnknownApiError(m) && m@ == message
    }
}

/// Maps an error message of the older API to its error.
pub fn error_for_message(message: &str, user: Option<&str>) -> (e: Error)
    ensures
        is_message_error(
            message@,
            match user {
                Some(u) => Some(u@),
                None => None,
            },
            e,
        ),
{
    if same_text(message, "Chart not tracked") {
        Error::ChartNotTracked
    } else if same_text(message, "Sepcify a username") || same_text(message, "User not found")
        || same_text(message, "Could not find scores for that user") {
        Error::UserNotFound {
            name: match user {
                Some(u) => Some(u.to_owned()),
                None => None,
            },
        }
    } else if same_text(message, "No users for specified country") {
        Error::NoUsersFound
    } else if same_text(message, "Score not found") {
        Error::ScoreNotFound
    } else {
        Error::UnknownApiError(message.to_owned())
    }
}

} // verus!

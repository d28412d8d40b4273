use vstd::prelude::*;
use vstd::string::*;

verus! {

/// The operations of a WebSocket client whose failure is reported with the
/// outside error's text.
#[derive(Clone, Copy, Debug, PartialEq, Eq, Structural)]
pub enum Failure {
    /// Opening the market data connection.
    MarketConnect,
    /// Opening the user event connection.
    UserConnect,
    /// Sending the authentication message on the user connection.
    Authenticate,
    /// Sending a market subscription message.
    SendSubscription,
    /// Sending the close frame.
    Close,
    /// Decoding a market data message.
    MarketParse,
    /// Decoding a user event message.
    UserParse,
}

/// What an error message says before the outside error's text.
pub open spec fn failure_prefix(failure: Failure) -> Seq<char> {
    match failure {
        Failure::MarketConnect => "Failed to connect to market WebSocket"@,
        Failure::UserConnect => "Failed to connect to user WebSocket"@,
        Failure::Authenticate => "Failed to authenticate"@,
        Failure::SendSubscription => "Failed to send subscription"@,
        Failure::Close => "Failed to close WebSocket"@,
        Failure::MarketParse => "Failed to parse market message"@,
        Failure::UserParse => "Failed to parse user message"@,
    }
}

/// The message of a failed operation: its prefix, a colon and a space, then
/// the text of the outside error.
pub open spec fn failure_message(failure: Failure, detail: Seq<char>) -> Seq<char> {
    failure_prefix(failure) + ": "@ + detail
}

/// Each failure's message names the operation that failed, then carries the
/// outside error's text unchanged at its end.
pub proof fn lemma_failure_message_keeps_detail(failure: Failure, detail: Seq<char>)
    ensures
        failure_message(failure, detail).len() == failure_prefix(failure).len() + 2 + detail.len(),
        failure_message(failure, detail).subrange(
            failure_message(failure, detail).len() - detail.len(),
            failure_message(failure, detail).len() as int,
        ) == detail,
        failure_message(failure, detail).subrange(0, failure_prefix(failure).len() as int)
            == failure_prefix(failure),
        failure == Failure::MarketConnect ==> failure_prefix(failure)
            == "Failed to connect to market WebSocket"@,
        failure == Failure::UserConnect ==> failure_prefix(failure)
            == "Failed to connect to user WebSocket"@,
        failure == Failure::Authenticate ==> failure_prefix(failure) == "Failed to authenticate"@,
        failure == Failure::SendSubscription ==> failure_prefix(failure)
            == "Failed to send subscription"@,
        failure == Failure::Close ==> failure_prefix(failure) == "Failed to close WebSocket"@,
        failure == Failure::MarketParse ==> failure_prefix(failure)
            == "Failed to parse market message"@,
        failure == Failure::UserParse ==> failure_prefix(failure) == "Failed to parse user message"@,
{
    reveal_strlit(": ");
    let m = failure_message(failure, detail);
    let p = failure_prefix(failure);
    assert(m =~= p + seq![':', ' '] + detail);
    assert(m.subrange(m.len() - detail.len(), m.len() as int) =~= detail);
    assert(m.subrange(0, p.len() as int) =~= p);
}

/// Errors of the WebSocket clients.
#[derive(Clone, Debug)]
pub enum Error {
    /// A failed request, with a message that says what went wrong.
    Validation(String),
}

impl Error {
    /// The text that the error carries.
    pub open spec fn message_view(&self) -> Seq<char> {
        match self {
            Error::Validation(message) => message@,
        }
    }

    /// An error with the given message.
    pub fn validation(message: &str) -> (e: Error)
        ensures
            e.message_view() == message@,
    {
        Error::Validation(String::from_str(message))
    }

    /// The error for a failed operation, given the outside error's text.
    pub fn from_failure(failure: Failure, detail: &str) -> (e: Error)
        ensures
            e.message_view() == failure_message(failure, detail@),
    {
        let prefix: &str = match failure {
            Failure::MarketConnect => "Failed to connect to market WebSocket",
            Failure::UserConnect => "Failed to connect to user WebSocket",
            Failure::Authenticate => "Failed to authenticate",
            Failure::SendSubscription => "Failed to send subscription",
            Failure::Close => "Failed to close WebSocket",
            Failure::MarketParse => "Failed to parse market message",
            Failure::UserParse => "Failed to parse user message",
        };
        let mut message = String::from_str(prefix);
        message.append(": ");
        message.append(detail);
        Error::Validation(message)
    }

    /// The outcome of an operation given what the outside call reported: `Ok`
    /// when it succeeded, else the error for `failure` with the outside
    /// error's text.
    pub fn check(failure: Failure, outcome: Result<(), String>) -> (result: Result<(), Error>)
        ensures
            outcome is Ok <==> result is Ok,
            outcome matches Err(detail) ==> (result matches Err(e) && e.message_view()
                == failure_message(failure, detail@)),
    {
        match outcome {
            Ok(()) => Ok(()),
            Err(detail) => Err(Error::from_failure(failure, detail.as_str())),
        }
    }

    /// The outcome of closing: `sent` is `None` when no writer was installed
    /// and nothing was sent, which is a success; otherwise it is what sending
    /// the close frame reported.
    pub fn close_outcome(sent: Option<Result<(), String>>) -> (result: Result<(), Error>)
        ensures
            sent is None ==> result is Ok,
            sent matches Some(outcome) ==> (outcome is Ok <==> result is Ok),
            sent matches Some(Err(detail)) ==> (result matches Err(e) && e.message_view()
                == failure_message(Failure::Close, detail@)),
    {
        match sent {
            None => Ok(()),
            Some(outcome) => Error::check(Failure::Close, outcome),
        }
    }

    /// The error for a request made while no connection is open for writing.
    pub fn not_connected() -> (e: Error)
        ensures
            e.message_view() == "WebSocket not connected"@,
    {
        Error::validation("WebSocket not connected")
    }

    /// The text that the error carries.
    pub fn message(&self) -> (m: &str)
        ensures
            m@ == self.message_view(),
    {
        match self {
            Error::Validation(message) => message.as_str(),
        }
    }
}

} // verus!

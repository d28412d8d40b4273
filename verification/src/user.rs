use vstd::prelude::*;
use vstd::string::*;

use crate::backoff::Reconnect;
use crate::json::{auth_message, auth_text};

verus! {

/// API credentials as plain text.
pub struct CredentialsView {
    pub key: Seq<char>,
    pub secret: Seq<char>,
    pub passphrase: Seq<char>,
}

/// API credentials for the authenticated user channel.
#[derive(Clone)]
pub struct Credentials {
    key: String,
    secret: String,
    passphrase: String,
}

impl View for Credentials {
    type V = CredentialsView;

    closed spec fn view(&self) -> CredentialsView {
        CredentialsView { key: self.key@, secret: self.secret@, passphrase: self.passphrase@ }
    }
}

impl Credentials {
    /// Credentials made of an API key, its secret and its passphrase.
    pub fn new(key: String, secret: String, passphrase: String) -> (c: Credentials)
        ensures
            c@ == (CredentialsView { key: key@, secret: secret@, passphrase: passphrase@ }),
    {
        Credentials { key, secret, passphrase }
    }

    /// The API key.
    pub fn key(&self) -> (key: &str)
        ensures
            key@ == self@.key,
    {
        self.key.as_str()
    }

    /// The secret that goes with the API key.
    pub fn secret(&self) -> (secret: &str)
        ensures
            secret@ == self@.secret,
    {
        self.secret.as_str()
    }

    /// The passphrase that goes with the API key.
    pub fn passphrase(&self) -> (passphrase: &str)
        ensures
            passphrase@ == self@.passphrase,
    {
        self.passphrase.as_str()
    }
}

/// How one reconnection attempt of the user channel went.
#[derive(Clone, Copy, Debug, PartialEq, Eq, Structural)]
pub enum UserAttempt {
    /// The connection could not be opened.
    ConnectFailed,
    /// The connection opened but the authentication message could not be sent.
    AuthSendFailed,
    /// The connection opened and the authentication message went out.
    Authenticated,
}

/// The plain state of a user event client.
pub struct UserSessionView {
    pub url: Seq<char>,
    pub credentials: CredentialsView,
    pub auto_reconnect: bool,
}

/// The state that a user event client keeps besides its connection: where it
/// connects, the credentials it authenticates with on every connection, and
/// its automatic-reconnection flag, which closing turns off.
pub struct UserSession {
    url: String,
    credentials: Credentials,
    auto_reconnect: bool,
}

impl View for UserSession {
    type V = UserSessionView;

    closed spec fn view(&self) -> UserSessionView {
        UserSessionView {
            url: self.url@,
            credentials: self.credentials@,
            auto_reconnect: self.auto_reconnect,
        }
    }
}

impl UserSession {
    /// The state of a freshly connected and authenticated client, with
    /// automatic reconnection on.
    pub fn new(url: &str, credentials: Credentials) -> (session: UserSession)
        ensures
            session@ == (UserSessionView {
                url: url@,
                credentials: credentials@,
                auto_reconnect: true,
            }),
    {
        UserSession { url: String::from_str(url), credentials, auto_reconnect: true }
    }

    /// The endpoint the client connects to.
    pub fn url(&self) -> (url: &str)
        ensures
            url@ == self@.url,
    {
        self.url.as_str()
    }

    /// The credentials the client authenticates with.
    pub fn credentials(&self) -> (credentials: &Credentials)
        ensures
            credentials@ == self@.credentials,
    {
        &self.credentials
    }

    /// The automatic-reconnection flag: on from the start, off once the client
    /// is closed. The receive step does not consult it: a lost connection
    /// ends the stream.
    pub fn auto_reconnect(&self) -> (on: bool)
        ensures
            on == self@.auto_reconnect,
    {
        self.auto_reconnect
    }

    /// The authentication message, sent first on every new connection.
    pub fn auth_request(&self) -> (text: String)
        ensures
            text@ == auth_text(
                self@.credentials.key,
                self@.credentials.secret,
                self@.credentials.passphrase,
            ),
    {
        auth_message(self.credentials.key(), self.credentials.secret(), self.credentials.passphrase())
    }

    /// Records a reconnection attempt in `round`: only an attempt that both
    /// connected and sent the authentication message ends the round; any
    /// other outcome counts as a failure. Returns whether the round is over.
    pub fn record_attempt(round: &mut Reconnect, attempt: UserAttempt) -> (done: bool)
        ensures
            done == (attempt == UserAttempt::Authenticated),
            done ==> final(round).failures() == old(round).failures(),
            !done ==> final(round).failures() == old(round).failures() + 1,
    {
        let authenticated = match attempt {
            UserAttempt::Authenticated => true,
            _ => false,
        };
        round.on_attempt(authenticated)
    }

    /// Turns the automatic-reconnection flag off, as closing the client does; nothing
    /// else changes.
    pub fn close(&mut self)
        ensures
            final(self)@ == (UserSessionView { auto_reconnect: false, ..old(self)@ }),
    {
        self.auto_reconnect = false;
    }
}

} // verus!

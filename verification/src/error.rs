//! What can go wrong between reading the server's address and the end of the stream.
use rml_rtmp::handshake::HandshakeError;
use rml_rtmp::sessions::ClientSessionError;
use vstd::prelude::*;

verus! {

/// The error of an RTMP handshake, carried through unread.
#[verifier::external_type_specification]
#[verifier::external_body]
pub struct ExHandshakeError(HandshakeError);

/// The error of an RTMP session, carried through unread.
#[verifier::external_type_specification]
#[verifier::external_body]
pub struct ExClientSessionError(ClientSessionError);

/// The error of a URL that could not be parsed, carried through unread.
#[verifier::external_type_specification]
#[verifier::external_body]
pub struct ExParseError(url::ParseError);

/// Why publishing stopped.
#[derive(Debug)]
pub enum PublishError {
    /// The server's address is not a URL.
    InvalidUrl(url::ParseError),
    /// The URL names no host.
    HostNotSpecified,
    /// The path of the URL does not have exactly two slashes.
    UnusualPath,
    /// The server wants an encrypted connection.
    TlsUnsupported,
    /// The handshake failed.
    Handshake(HandshakeError),
    /// The session refused a request or could not read what the server sent.
    Session(ClientSessionError),
    /// The server sent what the session cannot take.
    Unreadable,
    /// The session was asked for more connections and streams than it can count.
    TooManyRequests,
    /// The connection was closed while an answer was awaited.
    Disconnected,
    /// The server turned the connection request down, and said why.
    ConnectionRejected { description: String },
    /// The server answered with something else than what was asked for.
    UnexpectedEvent,
}

impl PublishError {
    /// The text for this error, or `None` where the error of an outside crate has its own.
    pub open spec fn spec_message(&self) -> Option<Seq<char>> {
        match self {
            PublishError::InvalidUrl(_) => None,
            PublishError::HostNotSpecified => Some("Host not specified"@),
            PublishError::UnusualPath => Some(
                "Path format is unusual. Should be /app/<stream_key>"@,
            ),
            PublishError::TlsUnsupported => Some("uh, we need to implement TLS support"@),
            PublishError::Handshake(_) => None,
            PublishError::Session(_) => None,
            PublishError::Unreadable => Some("Server sent what cannot be read"@),
            PublishError::TooManyRequests => Some("Too many requests"@),
            PublishError::Disconnected => Some("Failed to read"@),
            PublishError::ConnectionRejected { description } => Some(description@),
            PublishError::UnexpectedEvent => Some("Unexpected event"@),
        }
    }

    /// The text to show for this error. An error of an outside crate has its own text, so there
    /// is none here.
    pub fn message(&self) -> (text: Option<String>)
        ensures
            text is Some <==> self.spec_message() is Some,
            text matches Some(t) ==> self.spec_message() == Some(t@),
    {
        match self {
            PublishError::InvalidUrl(_) => None,
            PublishError::HostNotSpecified => Some("Host not specified".to_owned()),
            PublishError::UnusualPath => Some(
                "Path format is unusual. Should be /app/<stream_key>".to_owned(),
            ),
            PublishError::TlsUnsupported => Some(
                "uh, we need to implement TLS support".to_owned(),
            ),
            PublishError::Handshake(_) => None,
            PublishError::Session(_) => None,
            PublishError::Unreadable => Some("Server sent what cannot be read".to_owned()),
            PublishError::TooManyRequests => Some("Too many requests".to_owned()),
            PublishError::Disconnected => Some("Failed to read".to_owned()),
            PublishError::ConnectionRejected { description } => Some(description.clone()),
            PublishError::UnexpectedEvent => Some("Unexpected event".to_owned()),
        }
    }
}

/// Every error of the publisher's own has its text, a refusal the one that the server gave; errors of
/// other crates have none here.
pub proof fn law_every_error_has_its_text(error: PublishError)
    ensures
        error is HostNotSpecified ==> error.spec_message() == Some("Host not specified"@),
        error is UnusualPath ==> error.spec_message() == Some(
            "Path format is unusual. Should be /app/<stream_key>"@,
        ),
        error is TlsUnsupported ==> error.spec_message() == Some(
            "uh, we need to implement TLS support"@,
        ),
        error is Unreadable ==> error.spec_message() == Some("Server sent what cannot be read"@),
        error is TooManyRequests ==> error.spec_message() == Some("Too many requests"@),
        error is Disconnected ==> error.spec_message() == Some("Failed to read"@),
        error is UnexpectedEvent ==> error.spec_message() == Some("Unexpected event"@),
        error matches PublishError::ConnectionRejected { description } ==> error.spec_message()
            == Some(description@),
        error.spec_message() is None <==> error is InvalidUrl || error is Handshake
            || error is Session,
{
}

} // verus!

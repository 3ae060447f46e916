//! Error types for Radiotrope.

use vstd::prelude::*;

use crate::text::join;

verus! {

/// The address that a failed request was made to.
#[derive(Debug)]
pub struct FailedUrl {
    /// The whole URL.
    pub url: String,
    /// Its host, where it has one.
    pub host: Option<String>,
}

/// What is known of a failed HTTP request.
#[derive(Debug)]
pub struct NetworkFailure {
    /// The request could not be built.
    pub is_builder: bool,
    /// The connection could not be made.
    pub is_connect: bool,
    /// A time limit was exceeded.
    pub is_timeout: bool,
    /// The response could not be decoded.
    pub is_decode: bool,
    /// The address, where the failure is tied to one.
    pub url: Option<FailedUrl>,
    /// The HTTP client's own description.
    pub text: String,
}

/// Main error type for Radiotrope engine
#[derive(Debug)]
pub enum RadioError {
    Network(NetworkFailure),
    Audio(String),
    Stream(String),
    Decode(String),
    Io(String),
    Timeout(String),
}

/// Result type alias for Radiotrope
pub type Result<T> = core::result::Result<T, RadioError>;

/// The host part of the message on a connection that could not be made.
pub open spec fn host_or_server(url: FailedUrl) -> Seq<char> {
    match url.host {
        Some(host) => host@,
        None => "server"@,
    }
}

/// What a user is told of a failed request. The first of the four properties that holds decides.
pub open spec fn network_message(e: NetworkFailure) -> Seq<char> {
    if e.is_builder {
        match e.url {
            Some(url) => "Invalid URL: "@ + url.url@,
            None => "Invalid URL"@,
        }
    } else if e.is_connect {
        match e.url {
            Some(url) => "Could not connect to "@ + host_or_server(url),
            None => "Could not connect to server"@,
        }
    } else if e.is_timeout {
        "Connection timed out"@
    } else if e.is_decode {
        "Invalid response from server"@
    } else {
        "Network error: "@ + e.text@
    }
}

/// What a user is told of an error.
pub open spec fn error_message(e: RadioError) -> Seq<char> {
    match e {
        RadioError::Network(failure) => network_message(failure),
        RadioError::Audio(text) => "Audio error: "@ + text@,
        RadioError::Stream(text) => "Stream error: "@ + text@,
        RadioError::Decode(text) => "Decode error: "@ + text@,
        RadioError::Io(text) => "I/O error: "@ + text@,
        RadioError::Timeout(text) => "Timeout: "@ + text@,
    }
}

impl RadioError {
    /// The error as a sentence for the user.
    pub fn to_string(&self) -> (r: String)
        ensures
            r@ == error_message(*self),
    {
        match self {
            RadioError::Network(failure) => friendly_network_error(failure),
            RadioError::Audio(text) => join("Audio error: ", text),
            RadioError::Stream(text) => join("Stream error: ", text),
            RadioError::Decode(text) => join("Decode error: ", text),
            RadioError::Io(text) => join("I/O error: ", text),
            RadioError::Timeout(text) => join("Timeout: ", text),
        }
    }
}

/// A failed request as a sentence for the user.
pub fn friendly_network_error(e: &NetworkFailure) -> (r: String)
    ensures
        r@ == network_message(*e),
{
    if e.is_builder {
        return match &e.url {
            Some(url) => join("Invalid URL: ", &url.url),
            None => "Invalid URL".to_string(),
        };
    }
    if e.is_connect {
        return match &e.url {
            Some(url) => match &url.host {
                Some(host) => join("Could not connect to ", host),
                None => join("Could not connect to ", "server"),
            },
            None => "Could not connect to server".to_string(),
        };
    }
    if e.is_timeout {
        return "Connection timed out".to_string();
    }
    if e.is_decode {
        return "Invalid response from server".to_string();
    }
    join("Network error: ", &e.text)
}

/// An error is told with the sort that it is of and its own text; one of the network is explained.
pub proof fn law_errors_are_told(text: String, failure: NetworkFailure)
    ensures
        error_message(RadioError::Audio(text)) == "Audio error: "@ + text@,
        error_message(RadioError::Stream(text)) == "Stream error: "@ + text@,
        error_message(RadioError::Decode(text)) == "Decode error: "@ + text@,
        error_message(RadioError::Io(text)) == "I/O error: "@ + text@,
        error_message(RadioError::Timeout(text)) == "Timeout: "@ + text@,
        error_message(RadioError::Network(failure)) == network_message(failure),
{
}

/// What is said of a failed request: a URL that is no URL comes before a connection that could not
/// be made, that before a time limit, and that before an answer that cannot be read; the HTTP
/// client's own words are left for the rest.
pub proof fn law_network_failures_are_explained(e: NetworkFailure)
    ensures
        e.is_builder && e.url is Some ==> network_message(e) == "Invalid URL: "@
            + e.url->Some_0.url@,
        e.is_builder && e.url is None ==> network_message(e) == "Invalid URL"@,
        !e.is_builder && e.is_connect && e.url is Some && e.url->Some_0.host is Some
            ==> network_message(e) == "Could not connect to "@ + e.url->Some_0.host->Some_0@,
        !e.is_builder && e.is_connect && (e.url matches Some(url) ==> url.host is None)
            ==> network_message(e) == "Could not connect to server"@,
        !e.is_builder && !e.is_connect && e.is_timeout ==> network_message(e)
            == "Connection timed out"@,
        !e.is_builder && !e.is_connect && !e.is_timeout && e.is_decode ==> network_message(e)
            == "Invalid response from server"@,
        !e.is_builder && !e.is_connect && !e.is_timeout && !e.is_decode ==> network_message(e)
            == "Network error: "@ + e.text@,
{
    reveal_strlit("Could not connect to ");
    reveal_strlit("server");
    reveal_strlit("Could not connect to server");
    assert("Could not connect to "@ + "server"@ =~= "Could not connect to server"@);
}

} // verus!

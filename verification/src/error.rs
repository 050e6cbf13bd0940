//! Error type for configuration loading and handler execution.

use vstd::prelude::*;
use crate::strings::concat_str;

verus! {

/// Errors that notification operations can produce. Each variant carries
/// the human-readable detail it is reported with.
#[derive(Debug, PartialEq)]
pub enum NotificationError {
    /// A notification could not be handed to the system.
    SendFailed(String),
    /// The configuration could not be read, parsed or resolved.
    InvalidConfig(String),
    /// The system notification service is unavailable.
    ServiceUnavailable,
    /// An input/output failure, by its message.
    Io(String),
    /// A template could not be rendered.
    Template(String),
    /// A network request failed.
    Network(String),
    /// An email could not be built or sent.
    Email(String),
    /// Audio playback failed.
    Audio(String),
    /// A handler failed while running.
    Handler(String),
}

impl NotificationError {
    /// The message this error is reported with.
    pub open spec fn spec_message(&self) -> Seq<char> {
        match self {
            NotificationError::SendFailed(m) => "Failed to send notification: "@ + m@,
            NotificationError::InvalidConfig(m) => "Invalid configuration: "@ + m@,
            NotificationError::ServiceUnavailable => "Notification service unavailable"@,
            NotificationError::Io(m) => "I/O error: "@ + m@,
            NotificationError::Template(m) => "Template rendering error: "@ + m@,
            NotificationError::Network(m) => "Network request failed: "@ + m@,
            NotificationError::Email(m) => "Email error: "@ + m@,
            NotificationError::Audio(m) => "Audio playback error: "@ + m@,
            NotificationError::Handler(m) => "Handler error: "@ + m@,
        }
    }

    /// Render the error as its report message.
    pub fn message(&self) -> (r: String)
        ensures
            r@ == self.spec_message(),
    {
        match self {
            NotificationError::SendFailed(m) => concat_str(
                "Failed to send notification: ",
                m.as_str(),
            ),
            NotificationError::InvalidConfig(m) => concat_str(
                "Invalid configuration: ",
                m.as_str(),
            ),
            NotificationError::ServiceUnavailable => {
                let r = "Notification service unavailable".to_owned();
                r
            },
            NotificationError::Io(m) => concat_str("I/O error: ", m.as_str()),
            NotificationError::Template(m) => concat_str(
                "Template rendering error: ",
                m.as_str(),
            ),
            NotificationError::Network(m) => concat_str("Network request failed: ", m.as_str()),
            NotificationError::Email(m) => concat_str("Email error: ", m.as_str()),
            NotificationError::Audio(m) => concat_str("Audio playback error: ", m.as_str()),
            NotificationError::Handler(m) => concat_str("Handler error: ", m.as_str()),
        }
    }
}

} // verus!

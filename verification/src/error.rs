//! The errors of watn and the exit status of each.
use vstd::prelude::*;

verus! {

#[verifier::external_type_specification]
#[verifier::external_body]
pub struct ExIoError(std::io::Error);

#[derive(Debug)]
pub enum Error {
    ConfigError(String),
    ProviderNotFound(String),
    AuthError(String),
    ApiError { status: u16, message: String },
    NetworkError(String),
    IoError(std::io::Error),
    Interrupted,
}

/// The process exit status of an error.
pub open spec fn exit_status(err: &Error) -> i32 {
    match err {
        Error::ConfigError(_) | Error::ProviderNotFound(_) => 1,
        Error::AuthError(_) | Error::ApiError { .. } => 2,
        Error::NetworkError(_) => 3,
        Error::IoError(_) => 1,
        Error::Interrupted => 130,
    }
}

pub fn exit_code(err: &Error) -> (code: i32)
    ensures
        code == exit_status(err),
{
    match err {
        Error::ConfigError(_) | Error::ProviderNotFound(_) => 1,
        Error::AuthError(_) | Error::ApiError { .. } => 2,
        Error::NetworkError(_) => 3,
        Error::IoError(_) => 1,
        Error::Interrupted => 130,
    }
}

/// The `Display` text of an I/O error. Its text comes from the operating
/// system and is not stated.
#[verifier::external_body]
fn io_error_text(e: &std::io::Error) -> String {
    e.to_string()
}

/// The message of an error, with the I/O error's own text unspecified.
pub open spec fn message_prefix(err: &Error) -> Seq<char> {
    match err {
        Error::ConfigError(m) => "config error: "@ + m@,
        Error::ProviderNotFound(m) => "unknown provider: "@ + m@,
        Error::AuthError(m) => "authentication error: "@ + m@,
        Error::ApiError { status, message } => "API error ("@ + crate::text::decimal_text(
            *status as nat,
        ) + "): "@ + message@,
        Error::NetworkError(m) => "network error: "@ + m@,
        Error::IoError(_) => "I/O error: "@,
        Error::Interrupted => "interrupted"@,
    }
}

impl Error {
    /// The message that describes the error (its `Display` text).
    pub fn message(&self) -> (s: String)
        ensures
            match self {
                Error::IoError(_) => s@.len() >= message_prefix(self).len() && s@.subrange(
                    0,
                    message_prefix(self).len() as int,
                ) == message_prefix(self),
                _ => s@ == message_prefix(self),
            },
    {
        match self {
            Error::ConfigError(m) => {
                let mut s = String::from_str("config error: ");
                s.append(m.as_str());
                s
            },
            Error::ProviderNotFound(m) => {
                let mut s = String::from_str("unknown provider: ");
                s.append(m.as_str());
                s
            },
            Error::AuthError(m) => {
                let mut s = String::from_str("authentication error: ");
                s.append(m.as_str());
                s
            },
            Error::ApiError { status, message } => {
                let mut s = String::from_str("API error (");
                let digits = crate::text::decimal(*status as u64);
                s.append(digits.as_str());
                s.append("): ");
                s.append(message.as_str());
                s
            },
            Error::NetworkError(m) => {
                let mut s = String::from_str("network error: ");
                s.append(m.as_str());
                s
            },
            Error::IoError(e) => {
                let mut s = String::from_str("I/O error: ");
                let text = io_error_text(e);
                let ghost before = s@;
                s.append(text.as_str());
                assert(s@.subrange(0, before.len() as int) =~= before);
                s
            },
            Error::Interrupted => String::from_str("interrupted"),
        }
    }
}

} // verus!

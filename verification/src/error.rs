//! The error type of the library.

use vstd::prelude::*;
use vstd::string::StringExecFns;

verus! {

/// What went wrong, with a message for the user.
#[derive(Debug, Clone, PartialEq, Eq)]
pub enum Error {
    ConnectionError(String),
    InvalidArgument(String),
    InvalidCertificate(String),
    DatabaseError(String),
    InvalidInput(String),
    ConfigError(String),
}

impl Error {
    /// The words that introduce the message of each kind of error.
    pub open spec fn prefix(self) -> Seq<char> {
        match self {
            Error::ConnectionError(_) => "Connection error: "@,
            Error::InvalidArgument(_) => "Invalid argument: "@,
            Error::InvalidCertificate(_) => "Invalid certificate provided: "@,
            Error::DatabaseError(_) => "Database error: "@,
            Error::InvalidInput(_) => "Invalid input: "@,
            Error::ConfigError(_) => "Configuration error: "@,
        }
    }

    /// The message carried by the error.
    pub open spec fn message(self) -> Seq<char> {
        match self {
            Error::ConnectionError(m) => m@,
            Error::InvalidArgument(m) => m@,
            Error::InvalidCertificate(m) => m@,
            Error::DatabaseError(m) => m@,
            Error::InvalidInput(m) => m@,
            Error::ConfigError(m) => m@,
        }
    }

    /// The text shown to the user: the kind of error, then its message.
    pub fn to_string(&self) -> (text: String)
        ensures
            text@ == self.prefix() + self.message(),
    {
        match self {
            Error::ConnectionError(m) => String::from_str("Connection error: ").concat(m.as_str()),
            Error::InvalidArgument(m) => String::from_str("Invalid argument: ").concat(m.as_str()),
            Error::InvalidCertificate(m) => String::from_str(
                "Invalid certificate provided: ",
            ).concat(m.as_str()),
            Error::DatabaseError(m) => String::from_str("Database error: ").concat(m.as_str()),
            Error::InvalidInput(m) => String::from_str("Invalid input: ").concat(m.as_str()),
            Error::ConfigError(m) => String::from_str("Configuration error: ").concat(m.as_str()),
        }
    }
}

} // verus!

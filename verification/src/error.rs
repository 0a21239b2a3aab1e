//! What can go wrong, and what a client is told of it.

use vstd::prelude::*;
use vstd::string::StringExecFns;

verus! {

/// Why a request failed.
#[derive(Debug, Clone, Copy, PartialEq, Eq, Structural)]
pub enum Error {
    /// A value handed in is outside its domain: a nutrient target that is no
    /// non-negative number, an unknown gender or activity, a credential that cannot be read.
    InvalidArgument,
    /// The catalog could not be opened or read.
    InvalidFile,
    /// A catalog row misses a field, or holds one that is not of its type.
    FileParseError,
    /// A catalog record breaks a rule of the data.
    InvalidRecord,
    /// No meal meets the targets with this catalog.
    ImpossibleSolution,
    /// A catalog row names an allergen that is not known.
    InvalidAllergen,
    /// The service has no key to compare credentials with.
    NoAuthKey,
    /// The credential handed in is not the service's key.
    InvalidAuthKey,
}

/// What a client is told about a failure.
#[derive(Debug, Clone, Copy, PartialEq, Eq, Structural)]
#[allow(non_camel_case_types)]
pub enum ClientError {
    SERVICE_ERROR,
    NO_AUTH_KEY,
    WRONG_AUTH_KEY,
}

/// Status code of a request that the client got wrong.
pub const BAD_REQUEST: u16 = 400;

/// Status code of a failure on the service's side.
pub const INTERNAL_SERVER_ERROR: u16 = 500;

impl Error {
    /// The variant's name.
    pub open spec fn name(self) -> Seq<char> {
        match self {
            Error::InvalidArgument => "InvalidArgument"@,
            Error::InvalidFile => "InvalidFile"@,
            Error::FileParseError => "FileParseError"@,
            Error::InvalidRecord => "InvalidRecord"@,
            Error::ImpossibleSolution => "ImpossibleSolution"@,
            Error::InvalidAllergen => "InvalidAllergen"@,
            Error::NoAuthKey => "NoAuthKey"@,
            Error::InvalidAuthKey => "InvalidAuthKey"@,
        }
    }

    /// The status code and the client-facing error that stand for this failure.
    ///
    /// Only the two failures of authentication are the client's to mend; nothing
    /// of any other failure is shown.
    pub open spec fn client_view(self) -> (u16, ClientError) {
        match self {
            Error::NoAuthKey => (BAD_REQUEST, ClientError::NO_AUTH_KEY),
            Error::InvalidAuthKey => (BAD_REQUEST, ClientError::WRONG_AUTH_KEY),
            _ => (INTERNAL_SERVER_ERROR, ClientError::SERVICE_ERROR),
        }
    }

    /// The status code and the client-facing error that stand for this failure.
    pub fn client_status_and_error(&self) -> (r: (u16, ClientError))
        ensures
            r == self.client_view(),
    {
        match self {
            Error::NoAuthKey => (BAD_REQUEST, ClientError::NO_AUTH_KEY),
            Error::InvalidAuthKey => (BAD_REQUEST, ClientError::WRONG_AUTH_KEY),
            _ => (INTERNAL_SERVER_ERROR, ClientError::SERVICE_ERROR),
        }
    }

    /// The variant's name.
    pub fn as_str(&self) -> (r: &'static str)
        ensures
            r@ == self.name(),
    {
        match self {
            Error::InvalidArgument => "InvalidArgument",
            Error::InvalidFile => "InvalidFile",
            Error::FileParseError => "FileParseError",
            Error::InvalidRecord => "InvalidRecord",
            Error::ImpossibleSolution => "ImpossibleSolution",
            Error::InvalidAllergen => "InvalidAllergen",
            Error::NoAuthKey => "NoAuthKey",
            Error::InvalidAuthKey => "InvalidAuthKey",
        }
    }

    /// The variant's name, as a string of its own.
    pub fn to_text(&self) -> (r: String)
        ensures
            r@ == self.name(),
    {
        String::from_str(self.as_str())
    }
}

impl ClientError {
    /// The variant's name.
    pub open spec fn name(self) -> Seq<char> {
        match self {
            ClientError::SERVICE_ERROR => "SERVICE_ERROR"@,
            ClientError::NO_AUTH_KEY => "NO_AUTH_KEY"@,
            ClientError::WRONG_AUTH_KEY => "WRONG_AUTH_KEY"@,
        }
    }

    /// The variant's name.
    pub fn as_str(&self) -> (r: &'static str)
        ensures
            r@ == self.name(),
    {
        match self {
            ClientError::SERVICE_ERROR => "SERVICE_ERROR",
            ClientError::NO_AUTH_KEY => "NO_AUTH_KEY",
            ClientError::WRONG_AUTH_KEY => "WRONG_AUTH_KEY",
        }
    }
}

} // verus!

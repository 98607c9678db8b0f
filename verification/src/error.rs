//! The error taxonomy shared by every component of the library.
//!
//! Each failure is classified by an [`ErrorKind`]; callers branch on the
//! kind alone.

use vstd::prelude::*;

verus! {

/// Indicates the reason of an error.
#[derive(Debug, Clone, Copy, PartialEq, Eq, Structural)]
pub enum ErrorKind {
    /// The error was reported by the OpenSSL provider.
    OpenSslError,
    /// The error was reported by the Ed25519 provider.
    Ed25519Error,
    /// A read went past the end of the input, or a reader failed.
    IOError,
    /// Some data could not be formatted.
    FmtError,
    /// A base64 body is invalid.
    Base64Error,
    /// The argument passed into the function is invalid.
    InvalidArgument,
    /// The key file has some invalid data in it.
    InvalidKeyFormat,
    /// The container structure is invalid.
    InvalidFormat,
    /// Some parts of the key are invalid.
    InvalidKey,
    /// The key size is invalid.
    InvalidKeySize,
    /// A slice length is invalid.
    InvalidLength,
    /// The elliptic curve is not supported.
    UnsupportCurve,
    /// The encryption cipher or key-derivation function is not supported.
    UnsupportCipher,
    /// The passphrase is incorrect or the data is corrupted; the two cases
    /// cannot be told apart and are reported identically.
    IncorrectPass,
    /// The key type is not the desired one.
    TypeNotMatch,
    /// The key type is not supported.
    UnsupportType,
    /// The key file's PEM part is invalid.
    InvalidPemFormat,
    /// The key or IV length does not meet the cipher's requirement.
    InvalidKeyIvLength,
    /// A condition the design did not anticipate.
    Unknown,
}

/// What `ErrorKind::description` returns for each kind.
pub open spec fn description_spec(kind: ErrorKind) -> Seq<char> {
    match kind {
        ErrorKind::OpenSslError => "OpenSSL Error"@,
        ErrorKind::Ed25519Error => "Ed25519 Error"@,
        ErrorKind::IOError => "I/O Error"@,
        ErrorKind::FmtError => "Formatter Error"@,
        ErrorKind::Base64Error => "Base64 Error"@,
        ErrorKind::InvalidArgument => "Invalid Argument"@,
        ErrorKind::InvalidKeyFormat => "Invalid Key Format"@,
        ErrorKind::InvalidFormat => "Invalid Format"@,
        ErrorKind::InvalidKey => "Invalid Key"@,
        ErrorKind::InvalidKeySize => "Invalid Key Size"@,
        ErrorKind::InvalidLength => "Invalid Length"@,
        ErrorKind::UnsupportCurve => "Unsupported Elliptic Curve"@,
        ErrorKind::UnsupportCipher => "Unsupported Cipher"@,
        ErrorKind::IncorrectPass => "Incorrect Passphrase"@,
        ErrorKind::TypeNotMatch => "Key Type Not Match"@,
        ErrorKind::UnsupportType => "Unsupported Key Type"@,
        ErrorKind::InvalidPemFormat => "Invalid PEM Format"@,
        ErrorKind::InvalidKeyIvLength => "Invalid Key/IV Length"@,
        ErrorKind::Unknown => "Unknown Error"@,
    }
}

impl ErrorKind {
    /// Get the description of the kind.
    pub fn description(self) -> (r: &'static str)
        ensures
            r@ == description_spec(self),
    {
        match self {
            ErrorKind::OpenSslError => "OpenSSL Error",
            ErrorKind::Ed25519Error => "Ed25519 Error",
            ErrorKind::IOError => "I/O Error",
            ErrorKind::FmtError => "Formatter Error",
            ErrorKind::Base64Error => "Base64 Error",
            ErrorKind::InvalidArgument => "Invalid Argument",
            ErrorKind::InvalidKeyFormat => "Invalid Key Format",
            ErrorKind::InvalidFormat => "Invalid Format",
            ErrorKind::InvalidKey => "Invalid Key",
            ErrorKind::InvalidKeySize => "Invalid Key Size",
            ErrorKind::InvalidLength => "Invalid Length",
            ErrorKind::UnsupportCurve => "Unsupported Elliptic Curve",
            ErrorKind::UnsupportCipher => "Unsupported Cipher",
            ErrorKind::IncorrectPass => "Incorrect Passphrase",
            ErrorKind::TypeNotMatch => "Key Type Not Match",
            ErrorKind::UnsupportType => "Unsupported Key Type",
            ErrorKind::InvalidPemFormat => "Invalid PEM Format",
            ErrorKind::InvalidKeyIvLength => "Invalid Key/IV Length",
            ErrorKind::Unknown => "Unknown Error",
        }
    }
}

/// The error type of this crate; it carries the classifying kind.
#[derive(Debug, Clone, Copy, PartialEq, Eq, Structural)]
pub struct Error {
    /// The classifying kind; callers branch on it alone.
    pub kind: ErrorKind,
}

impl Error {
    /// Build an error of the given kind.
    pub fn from_kind(kind: ErrorKind) -> (r: Self)
        ensures
            r.kind == kind,
    {
        Error { kind }
    }

    /// Get the kind of the error.
    pub fn kind(&self) -> (r: ErrorKind)
        ensures
            r == self.kind,
    {
        self.kind
    }
}

impl From<ErrorKind> for Error {
    fn from(kind: ErrorKind) -> (r: Self) {
        Error { kind }
    }
}

impl vstd::std_specs::convert::FromSpecImpl<ErrorKind> for Error {
    open spec fn obeys_from_spec() -> bool {
        true
    }

    open spec fn from_spec(kind: ErrorKind) -> Self {
        Error { kind }
    }
}

/// The `Result` alias of this crate.
pub type OsshResult<T> = Result<T, Error>;

} // verus!

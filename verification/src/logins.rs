//! Error taxonomy of the logins storage component, and its conversion policy
//! from internal errors to the public error type.
//!
//! Internal errors carry the message text of the underlying failure (SQL,
//! JSON, crypto, ...) as plain strings; the conversion policy decides which
//! public error each one becomes and whether it is logged or reported.

use vstd::prelude::*;
use vstd::string::StringExecFns;

use crate::handling::{ErrorHandling, ErrorReporting, GetErrorHandling, Level};
use crate::util::{decimal_spec, u64_to_decimal};

verus! {

/// Errors returned via the public logins interface.
///
/// Note that there is no direct conversion between public and internal
/// errors; the [`GetErrorHandling`] mechanism converts explicitly when
/// necessary.
#[derive(Clone, Debug, PartialEq, Eq)]
pub enum LoginsStorageError {
    InvalidRecord(String),
    NoSuchRecord(String),
    IncorrectKey,
    Interrupted(String),
    UnexpectedLoginsStorageError(String),
}

/// `LoginsError::InvalidLogin` subtypes.
#[derive(Clone, Debug, PartialEq, Eq)]
pub enum InvalidLogin {
    /// The login's origin field is empty.
    EmptyOrigin,
    EmptyPassword,
    DuplicateLogin,
    BothTargets,
    NoTarget,
    IllegalFieldValue { field_info: String },
}

/// Logins error type.
///
/// These are "internal" errors used by the implementation; this error type
/// is never returned to the consumer.  Failures of the underlying database,
/// serialization, crypto and networking layers are carried as their message
/// text.
#[derive(Clone, Debug, PartialEq, Eq)]
pub enum LoginsError {
    InvalidLogin(InvalidLogin),
    /// The `sync_status` column in the database has an illegal value.
    BadSyncStatus(u8),
    NoSuchRecord(String),
    /// Imports only work on empty logins tables.
    NonEmptyTable,
    EncryptionKeyMissing,
    SyncAdapterError(String),
    JsonError(String),
    SqlError(String),
    UrlParseError(String),
    InvalidPath(String),
    InvalidDatabaseFile(String),
    InvalidKey,
    CryptoError(String),
    Interrupted(String),
    IOError(String),
    MigrationError(String),
}

impl InvalidLogin {
    pub open spec fn message_spec(&self) -> Seq<char> {
        match self {
            InvalidLogin::EmptyOrigin => "Origin is empty"@,
            InvalidLogin::EmptyPassword => "Password is empty"@,
            InvalidLogin::DuplicateLogin => "Login already exists"@,
            InvalidLogin::BothTargets => "Both `formActionOrigin` and `httpRealm` are present"@,
            InvalidLogin::NoTarget => "Neither `formActionOrigin` or `httpRealm` are present"@,
            InvalidLogin::IllegalFieldValue { field_info } => "Login has illegal field: "@
                + field_info@,
        }
    }

    /// The error's message text.
    pub fn message(&self) -> (r: String)
        ensures
            r@ == self.message_spec(),
    {
        match self {
            InvalidLogin::EmptyOrigin => String::from_str("Origin is empty"),
            InvalidLogin::EmptyPassword => String::from_str("Password is empty"),
            InvalidLogin::DuplicateLogin => String::from_str("Login already exists"),
            InvalidLogin::BothTargets => String::from_str(
                "Both `formActionOrigin` and `httpRealm` are present",
            ),
            InvalidLogin::NoTarget => String::from_str(
                "Neither `formActionOrigin` or `httpRealm` are present",
            ),
            InvalidLogin::IllegalFieldValue { field_info } => String::from_str(
                "Login has illegal field: ",
            ).concat(field_info.as_str()),
        }
    }
}

impl LoginsError {
    pub open spec fn message_spec(&self) -> Seq<char> {
        match self {
            LoginsError::InvalidLogin(why) => "Invalid login: "@ + why.message_spec(),
            LoginsError::BadSyncStatus(v) => "The `sync_status` column in DB has an illegal value: "@
                + decimal_spec(*v as nat),
            LoginsError::NoSuchRecord(guid) => "No record with guid exists (when one was required): "@
                + guid@,
            LoginsError::NonEmptyTable => "The logins tables are not empty"@,
            LoginsError::EncryptionKeyMissing => "local encryption key not set"@,
            LoginsError::SyncAdapterError(m) => "Error synchronizing: "@ + m@,
            LoginsError::JsonError(m) => "Error parsing JSON data: "@ + m@,
            LoginsError::SqlError(m) => "Error executing SQL: "@ + m@,
            LoginsError::UrlParseError(m) => "Error parsing URL: "@ + m@,
            LoginsError::InvalidPath(m) => "Invalid path: "@ + m@,
            LoginsError::InvalidDatabaseFile(m) => "Invalid database file: "@ + m@,
            LoginsError::InvalidKey => "Invalid encryption key"@,
            LoginsError::CryptoError(m) => "Crypto Error: "@ + m@,
            LoginsError::Interrupted(m) => m@,
            LoginsError::IOError(m) => "IOError: "@ + m@,
            LoginsError::MigrationError(m) => "Migration Error: "@ + m@,
        }
    }

    /// The error's message text.
    pub fn message(&self) -> (r: String)
        ensures
            r@ == self.message_spec(),
    {
        match self {
            LoginsError::InvalidLogin(why) => String::from_str("Invalid login: ").concat(
                why.message().as_str(),
            ),
            LoginsError::BadSyncStatus(v) => String::from_str(
                "The `sync_status` column in DB has an illegal value: ",
            ).concat(u64_to_decimal(*v as u64).as_str()),
            LoginsError::NoSuchRecord(guid) => String::from_str(
                "No record with guid exists (when one was required): ",
            ).concat(guid.as_str()),
            LoginsError::NonEmptyTable => String::from_str("The logins tables are not empty"),
            LoginsError::EncryptionKeyMissing => String::from_str("local encryption key not set"),
            LoginsError::SyncAdapterError(m) => String::from_str("Error synchronizing: ").concat(
                m.as_str(),
            ),
            LoginsError::JsonError(m) => String::from_str("Error parsing JSON data: ").concat(
                m.as_str(),
            ),
            LoginsError::SqlError(m) => String::from_str("Error executing SQL: ").concat(
                m.as_str(),
            ),
            LoginsError::UrlParseError(m) => String::from_str("Error parsing URL: ").concat(
                m.as_str(),
            ),
            LoginsError::InvalidPath(m) => String::from_str("Invalid path: ").concat(m.as_str()),
            LoginsError::InvalidDatabaseFile(m) => String::from_str(
                "Invalid database file: ",
            ).concat(m.as_str()),
            LoginsError::InvalidKey => String::from_str("Invalid encryption key"),
            LoginsError::CryptoError(m) => String::from_str("Crypto Error: ").concat(m.as_str()),
            LoginsError::Interrupted(m) => m.clone(),
            LoginsError::IOError(m) => String::from_str("IOError: ").concat(m.as_str()),
            LoginsError::MigrationError(m) => String::from_str("Migration Error: ").concat(
                m.as_str(),
            ),
        }
    }
}

impl GetErrorHandling for LoginsError {
    type ExternalError = LoginsStorageError;

    open spec fn handling_ok(&self, r: &ErrorHandling<LoginsStorageError>) -> bool {
        match self {
            LoginsError::InvalidLogin(why) => r.reporting == ErrorReporting::Nothing
                && (r.err matches LoginsStorageError::InvalidRecord(m) && m@
                == why.message_spec()),
            LoginsError::NoSuchRecord(guid) => r.reporting == ErrorReporting::Nothing
                && (r.err matches LoginsStorageError::NoSuchRecord(m) && m@ == guid@),
            LoginsError::NonEmptyTable => (r.reporting matches ErrorReporting::Report {
                level,
                report_class,
            } && level == Level::Error && report_class@ == "migration"@) && (
            r.err matches LoginsStorageError::UnexpectedLoginsStorageError(m) && m@
                == "must be an empty DB to migrate"@),
            LoginsError::CryptoError(_) => r.reporting == (ErrorReporting::Log {
                level: Level::Warn,
            }) && r.err is IncorrectKey,
            LoginsError::Interrupted(msg) => r.reporting == ErrorReporting::Nothing && (
            r.err matches LoginsStorageError::Interrupted(m) && m@ == msg@),
            _ => (r.reporting matches ErrorReporting::Report { level, report_class } && level
                == Level::Error && report_class@ == "unexpected"@) && (
            r.err matches LoginsStorageError::UnexpectedLoginsStorageError(m) && m@
                == self.message_spec()),
        }
    }

    /// Return how to handle our internal errors.
    ///
    /// The details inside the returned `LoginsStorageError` should not
    /// contain any personally identifying information; the message strings
    /// come from the underlying failures on a best-effort basis.
    fn get_error_handling(&self) -> (r: ErrorHandling<LoginsStorageError>)
        ensures
            self.handling_ok(&r),
    {
        match self {
            LoginsError::InvalidLogin(why) => Self::passthrough(
                LoginsStorageError::InvalidRecord(why.message()),
            ),
            // The internal "no such record" error is converted to the public
            // "no such record" error, with no logging and no reporting.
            LoginsError::NoSuchRecord(guid) => Self::passthrough(
                LoginsStorageError::NoSuchRecord(guid.clone()),
            ),
            // NonEmptyTable is just a sanity check to ensure imports never
            // target an existing database; consumers never expect to handle
            // it, so it is reported and converted to an "internal" error.
            LoginsError::NonEmptyTable => Self::unexpected(
                LoginsStorageError::UnexpectedLoginsStorageError(
                    String::from_str("must be an empty DB to migrate"),
                ),
                Some("migration"),
            ),
            LoginsError::CryptoError(_) => Self::log(
                LoginsStorageError::IncorrectKey,
                Level::Warn,
            ),
            LoginsError::Interrupted(msg) => Self::passthrough(
                LoginsStorageError::Interrupted(msg.clone()),
            ),
            // Obscure errors are reported and converted to an "unexpected"
            // error carrying the original message.
            _ => Self::unexpected(
                LoginsStorageError::UnexpectedLoginsStorageError(self.message()),
                None,
            ),
        }
    }
}

} // verus!

//! Tests for the error conversion and reporting policy.

use fxa_client::handling::{convert_log_report_error, ErrorReporting, GetErrorHandling, Level};
use fxa_client::logins::{InvalidLogin, LoginsError, LoginsStorageError};

#[test]
fn passthrough_conversions() {
    assert_eq!(
        convert_log_report_error(LoginsError::NoSuchRecord("abc123".to_owned())),
        LoginsStorageError::NoSuchRecord("abc123".to_owned())
    );
    assert_eq!(
        convert_log_report_error(LoginsError::InvalidLogin(InvalidLogin::EmptyOrigin)),
        LoginsStorageError::InvalidRecord("Origin is empty".to_owned())
    );
    assert_eq!(
        convert_log_report_error(LoginsError::Interrupted("interrupted".to_owned())),
        LoginsStorageError::Interrupted("interrupted".to_owned())
    );
}

#[test]
fn crypto_errors_become_incorrect_key() {
    let handling = LoginsError::CryptoError("bad tag".to_owned()).get_error_handling();
    assert_eq!(handling.err, LoginsStorageError::IncorrectKey);
    assert_eq!(handling.reporting, ErrorReporting::Log { level: Level::Warn });
}

#[test]
fn non_empty_table_is_reported_as_migration() {
    let handling = LoginsError::NonEmptyTable.get_error_handling();
    assert_eq!(
        handling.err,
        LoginsStorageError::UnexpectedLoginsStorageError(
            "must be an empty DB to migrate".to_owned()
        )
    );
    assert_eq!(
        handling.reporting,
        ErrorReporting::Report {
            level: Level::Error,
            report_class: "migration".to_owned()
        }
    );
}

#[test]
fn obscure_errors_are_unexpected() {
    let handling = LoginsError::SqlError("no such table: loginsX".to_owned()).get_error_handling();
    assert_eq!(
        handling.err,
        LoginsStorageError::UnexpectedLoginsStorageError(
            "Error executing SQL: no such table: loginsX".to_owned()
        )
    );
    assert_eq!(
        handling.reporting,
        ErrorReporting::Report {
            level: Level::Error,
            report_class: "unexpected".to_owned()
        }
    );
}

#[test]
fn error_messages() {
    assert_eq!(
        LoginsError::BadSyncStatus(123).message(),
        "The `sync_status` column in DB has an illegal value: 123"
    );
    assert_eq!(
        LoginsError::JsonError("eof".to_owned()).message(),
        "Error parsing JSON data: eof"
    );
    assert_eq!(
        LoginsError::NoSuchRecord("g1".to_owned()).message(),
        "No record with guid exists (when one was required): g1"
    );
    assert_eq!(LoginsError::InvalidKey.message(), "Invalid encryption key");
    assert_eq!(
        LoginsError::InvalidLogin(InvalidLogin::IllegalFieldValue {
            field_info: "origin".to_owned()
        })
        .message(),
        "Invalid login: Login has illegal field: origin"
    );
    assert_eq!(
        InvalidLogin::BothTargets.message(),
        "Both `formActionOrigin` and `httpRealm` are present"
    );
}

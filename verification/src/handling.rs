//! Helpers for components to "handle" errors: convert an internal error to a
//! public error and decide what logging or reporting should happen.
//!
//! The decision logic is pure and verified here; actually emitting a log line
//! or a report is an I/O side effect that belongs to the caller acting on the
//! returned [`ErrorReporting`] value.

use vstd::prelude::*;
use vstd::string::StringExecFns;

verus! {

/// Log severity, ordered from most to least severe.
#[derive(Clone, Copy, Debug, PartialEq, Eq)]
pub enum Level {
    Error,
    Warn,
    Info,
    Debug,
    Trace,
}

/// Describes what error reporting action should be taken.
#[derive(Clone, Debug, PartialEq, Eq)]
pub enum ErrorReporting {
    /// No logging or error reporting.
    Nothing,
    /// Write a log message but don't report it.
    Log { level: Level },
    /// Log a message and report via the error reporter.
    Report { level: Level, report_class: String },
}

/// Specifies how an "internal" error is converted to an "external" public
/// error and any logging or reporting that should happen.
#[derive(Debug)]
pub struct ErrorHandling<E> {
    /// The external error that should be returned.
    pub err: E,
    /// How the error should be reported.
    pub reporting: ErrorReporting,
}

/// A trait to define how errors are converted and reported.
pub trait GetErrorHandling {
    type ExternalError;

    /// Which conversions and reporting decisions are correct for this error.
    spec fn handling_ok(&self, r: &ErrorHandling<Self::ExternalError>) -> bool;

    /// Return how to handle our internal errors.
    fn get_error_handling(&self) -> (r: ErrorHandling<Self::ExternalError>)
        ensures
            self.handling_ok(&r),
    ;

    // Some helpers to cut the verbosity down.
    /// Just convert the error without any special logging or error reporting.
    fn passthrough(err: Self::ExternalError) -> (r: ErrorHandling<Self::ExternalError>)
        ensures
            r.err == err,
            r.reporting == ErrorReporting::Nothing,
    {
        ErrorHandling { err, reporting: ErrorReporting::Nothing }
    }

    /// Just convert and log the error without any special error reporting.
    fn log(err: Self::ExternalError, level: Level) -> (r: ErrorHandling<Self::ExternalError>)
        ensures
            r.err == err,
            r.reporting == (ErrorReporting::Log { level }),
    {
        ErrorHandling { err, reporting: ErrorReporting::Log { level } }
    }

    /// Convert, report and log the error.
    fn report(err: Self::ExternalError, level: Level, report_class: String) -> (r: ErrorHandling<
        Self::ExternalError,
    >)
        ensures
            r.err == err,
            r.reporting == (ErrorReporting::Report { level, report_class }),
    {
        ErrorHandling { err, reporting: ErrorReporting::Report { level, report_class } }
    }

    /// Convert, report and log the error in a way suitable for "unexpected"
    /// errors.
    fn unexpected(err: Self::ExternalError, report_class: Option<&str>) -> (r: ErrorHandling<
        Self::ExternalError,
    >)
        ensures
            r.err == err,
            r.reporting matches ErrorReporting::Report { level, report_class: rc } && level
                == Level::Error && rc@ == (match report_class {
                Some(s) => s@,
                None => "unexpected"@,
            }),
    {
        let class = match report_class {
            Some(s) => s.to_owned(),
            None => String::from_str("unexpected"),
        };
        Self::report(err, Level::Error, class)
    }
}

/// Handle the specified "internal" error, converting it to the public error.
///
/// Any logging or error reporting action decided by `get_error_handling` is
/// the caller's to perform; this function only carries out the conversion.
pub fn convert_log_report_error<IE: GetErrorHandling>(e: IE) -> (r: IE::ExternalError)
    ensures
        exists|reporting: ErrorReporting|
            e.handling_ok(
                &(ErrorHandling { err: r, reporting }),
            ),
{
    let handling = e.get_error_handling();
    let ghost rep = handling.reporting;
    let ErrorHandling { err, reporting: _ } = handling;
    proof {
        assert(e.handling_ok(&(ErrorHandling { err, reporting: rep })));
    }
    err
}

} // verus!

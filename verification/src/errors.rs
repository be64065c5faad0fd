//! The errors of the service that the library raises.

use vstd::prelude::*;
use vstd::string::StringExecFns;

verus! {

/// An error of the service's own: a setting that is missing or wrong, a
/// logger that would not start, a token or an id that does not check out.
#[derive(Clone, Debug)]
pub enum AppError {
    MissingEnvVar(String),
    InvalidEnvVar(String),
    InvalidLogFilter(String),
    LoggingInit(String),
    Jwt(String),
    InvalidUuid(String),
}

/// An error with its text taken as a character sequence.
pub enum AppErrorView {
    MissingEnvVar(Seq<char>),
    InvalidEnvVar(Seq<char>),
    InvalidLogFilter(Seq<char>),
    LoggingInit(Seq<char>),
    Jwt(Seq<char>),
    InvalidUuid(Seq<char>),
}

impl View for AppError {
    type V = AppErrorView;

    open spec fn view(&self) -> AppErrorView {
        match self {
            AppError::MissingEnvVar(m) => AppErrorView::MissingEnvVar(m@),
            AppError::InvalidEnvVar(m) => AppErrorView::InvalidEnvVar(m@),
            AppError::InvalidLogFilter(m) => AppErrorView::InvalidLogFilter(m@),
            AppError::LoggingInit(m) => AppErrorView::LoggingInit(m@),
            AppError::Jwt(m) => AppErrorView::Jwt(m@),
            AppError::InvalidUuid(m) => AppErrorView::InvalidUuid(m@),
        }
    }
}

/// The message an error is shown with.
pub open spec fn app_error_text(e: AppErrorView) -> Seq<char> {
    match e {
        AppErrorView::MissingEnvVar(m) => "missing required environment variable: "@ + m,
        AppErrorView::InvalidEnvVar(m) => "invalid value for environment variable: "@ + m,
        AppErrorView::InvalidLogFilter(m) => "invalid log filter from RUST_LOG: "@ + m,
        AppErrorView::LoggingInit(m) => "failed to initialize logger: "@ + m,
        AppErrorView::Jwt(m) => "jwt error: "@ + m,
        AppErrorView::InvalidUuid(m) => "invalid uuid value: "@ + m,
    }
}

impl AppError {
    /// The message the error is shown with.
    pub fn describe(&self) -> (r: String)
        ensures
            r@ == app_error_text(self@),
    {
        match self {
            AppError::MissingEnvVar(m) => String::from_str("missing required environment variable: ").concat(m.as_str()),
            AppError::InvalidEnvVar(m) => String::from_str("invalid value for environment variable: ").concat(m.as_str()),
            AppError::InvalidLogFilter(m) => String::from_str("invalid log filter from RUST_LOG: ").concat(m.as_str()),
            AppError::LoggingInit(m) => String::from_str("failed to initialize logger: ").concat(m.as_str()),
            AppError::Jwt(m) => String::from_str("jwt error: ").concat(m.as_str()),
            AppError::InvalidUuid(m) => String::from_str("invalid uuid value: ").concat(m.as_str()),
        }
    }
}

} // verus!

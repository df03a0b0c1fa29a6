//! The library's error type.

use vstd::prelude::*;
use vstd::string::StringExecFns;
use std::path::PathBuf;
use std::time::SystemTimeError;
use crate::file::display_path;
use crate::file::path_of;
use crate::file::path_text;
use crate::text::decimal;
use crate::text::decimal_string;

verus! {

/// `std::time::SystemTimeError`, carried as an opaque value.
#[verifier::external_type_specification]
#[verifier::external_body]
pub struct ExSystemTimeError(SystemTimeError);

/// The message of a `SystemTimeError`, as its `Display` gives it.
#[verifier::external_body]
pub(crate) fn system_time_message(error: &SystemTimeError) -> (message: String) {
    error.to_string()
}

/// Result type alias using the library's Error type.
pub type Result<T> = core::result::Result<T, Error>;

/// Comprehensive error types for the library.
#[derive(Debug)]
#[non_exhaustive]
pub enum Error {
    /// IO error with context about the file path.
    Io {
        /// Path where the error occurred
        path: PathBuf,
        /// Error message
        message: String,
    },
    /// Template rendering error.
    Template {
        /// Template name
        template: String,
        /// Error message
        message: String,
    },
    /// Configuration validation error.
    Config {
        /// Detailed error message
        message: String,
    },
    /// File exceeds maximum token limit.
    FileTooLarge {
        /// Path to the oversized file
        path: PathBuf,
        /// Actual token count
        size: usize,
        /// Maximum allowed tokens
        limit: usize,
    },
    /// No processable files found in directory.
    NoFiles {
        /// Directory that was scanned
        path: PathBuf,
    },
    /// JSON serialization error.
    Serialization {
        /// Error message
        message: String,
    },
    /// Invalid UTF-8 encountered in file.
    InvalidUtf8 {
        /// Path to file with encoding issues
        path: PathBuf,
    },
    /// System time error.
    SystemTime {
        /// Error message
        message: String,
    },
    /// Multiple errors occurred during processing.
    Multiple {
        /// Number of errors
        count: usize,
        /// Collection of errors
        errors: Vec<Error>,
    },
    /// Invalid output pattern.
    InvalidPattern {
        /// The invalid pattern
        pattern: String,
        /// Reason why it's invalid
        reason: String,
    },
}

impl Error {
    /// Creates an IO error with path context.
    #[must_use]
    pub fn io(path: PathBuf, message: String) -> (error: Self)
        ensures
            error == (Error::Io { path, message }),
    {
        Error::Io { path, message }
    }

    /// Creates a configuration error.
    #[must_use]
    pub fn config(message: &str) -> (error: Self)
        ensures
            error matches Error::Config { message: m } && m@ == message@,
    {
        Error::Config { message: message.to_owned() }
    }

    /// Creates a template error.
    #[must_use]
    pub fn template(template: &str, message: String) -> (error: Self)
        ensures
            error matches Error::Template { template: t, message: m } && t@ == template@ && m
                == message,
    {
        Error::Template { template: template.to_owned(), message }
    }

    /// Creates an invalid UTF-8 error.
    #[must_use]
    pub fn invalid_utf8(path: PathBuf) -> (error: Self)
        ensures
            error == (Error::InvalidUtf8 { path }),
    {
        Error::InvalidUtf8 { path }
    }

    /// Creates a no files error.
    #[must_use]
    pub fn no_files(path: PathBuf) -> (error: Self)
        ensures
            error == (Error::NoFiles { path }),
    {
        Error::NoFiles { path }
    }

    /// Creates an invalid pattern error.
    #[must_use]
    pub fn invalid_pattern(pattern: &str, reason: &str) -> (error: Self)
        ensures
            error matches Error::InvalidPattern { pattern: p, reason: r } && p@ == pattern@ && r@
                == reason@,
    {
        Error::InvalidPattern { pattern: pattern.to_owned(), reason: reason.to_owned() }
    }

    /// Combines multiple errors into a single error.
    #[must_use]
    pub fn multiple(errors: Vec<Self>) -> (error: Self)
        ensures
            error == (Error::Multiple { count: errors.len(), errors }),
    {
        let count = errors.len();
        Error::Multiple { count, errors }
    }

    /// Returns true if this is an IO error.
    #[must_use]
    pub fn is_io(&self) -> (io: bool)
        ensures
            io == (self is Io),
    {
        match self {
            Error::Io { .. } => true,
            _ => false,
        }
    }

    /// Returns true if this is a configuration error.
    #[must_use]
    pub fn is_config(&self) -> (config: bool)
        ensures
            config == (self is Config),
    {
        match self {
            Error::Config { .. } => true,
            _ => false,
        }
    }

    /// What [`Error::to_string`] shows.
    pub open spec fn message_text(&self) -> Seq<char> {
        match self {
            Error::Io { path, message } => "IO error accessing '"@ + path_text(path_of(*path)) + "': "@
                + message@,
            Error::Template { template, message } => "Failed to render template '"@ + template@
                + "': "@ + message@,
            Error::Config { message } => "Invalid configuration: "@ + message@,
            Error::FileTooLarge { path, size, limit } => "File '"@ + path_text(path_of(*path))
                + "' is too large: "@ + decimal(*size as nat) + " tokens exceeds limit of "@
                + decimal(*limit as nat) + " tokens"@,
            Error::NoFiles { path } => "No processable files found in '"@ + path_text(path_of(*path))
                + "'. Check .gitignore rules or file permissions."@,
            Error::Serialization { message } => "Serialization error: "@ + message@,
            Error::InvalidUtf8 { path } => "Invalid UTF-8 encoding in file '"@ + path_text(path_of(*path))
                + "'. File may be binary or use unsupported encoding."@,
            Error::SystemTime { message } => "System time error: "@ + message@,
            Error::Multiple { count, errors } => "Multiple errors occurred during processing ("@
                + decimal(*count as nat) + " errors)"@,
            Error::InvalidPattern { pattern, reason } => "Invalid output pattern '"@ + pattern@
                + "': "@ + reason@,
        }
    }

    /// The message of this error, for people to read.
    pub fn to_string(&self) -> (text: String)
        ensures
            text@ == self.message_text(),
    {
        match self {
            Error::Io { path, message } => {
                let mut text = "IO error accessing '".to_owned();
                text.append(display_path(path.as_path()).as_str());
                text.append("': ");
                text.append(message.as_str());
                text
            },
            Error::Template { template, message } => {
                let mut text = "Failed to render template '".to_owned();
                text.append(template.as_str());
                text.append("': ");
                text.append(message.as_str());
                text
            },
            Error::Config { message } => {
                let mut text = "Invalid configuration: ".to_owned();
                text.append(message.as_str());
                text
            },
            Error::FileTooLarge { path, size, limit } => {
                let mut text = "File '".to_owned();
                text.append(display_path(path.as_path()).as_str());
                text.append("' is too large: ");
                text.append(decimal_string(*size).as_str());
                text.append(" tokens exceeds limit of ");
                text.append(decimal_string(*limit).as_str());
                text.append(" tokens");
                text
            },
            Error::NoFiles { path } => {
                let mut text = "No processable files found in '".to_owned();
                text.append(display_path(path.as_path()).as_str());
                text.append("'. Check .gitignore rules or file permissions.");
                text
            },
            Error::Serialization { message } => {
                let mut text = "Serialization error: ".to_owned();
                text.append(message.as_str());
                text
            },
            Error::InvalidUtf8 { path } => {
                let mut text = "Invalid UTF-8 encoding in file '".to_owned();
                text.append(display_path(path.as_path()).as_str());
                text.append("'. File may be binary or use unsupported encoding.");
                text
            },
            Error::SystemTime { message } => {
                let mut text = "System time error: ".to_owned();
                text.append(message.as_str());
                text
            },
            Error::Multiple { count, errors } => {
                let mut text = "Multiple errors occurred during processing (".to_owned();
                text.append(decimal_string(*count).as_str());
                text.append(" errors)");
                text
            },
            Error::InvalidPattern { pattern, reason } => {
                let mut text = "Invalid output pattern '".to_owned();
                text.append(pattern.as_str());
                text.append("': ");
                text.append(reason.as_str());
                text
            },
        }
    }
}

impl Clone for Error {
    fn clone(&self) -> (copy: Self)
        decreases self,
    {
        match self {
            Error::Io { path, message } => Error::Io {
                path: path.clone(),
                message: message.clone(),
            },
            Error::Template { template, message } => Error::Template {
                template: template.clone(),
                message: message.clone(),
            },
            Error::Config { message } => Error::Config { message: message.clone() },
            Error::FileTooLarge { path, size, limit } => Error::FileTooLarge {
                path: path.clone(),
                size: *size,
                limit: *limit,
            },
            Error::NoFiles { path } => Error::NoFiles { path: path.clone() },
            Error::Serialization { message } => Error::Serialization { message: message.clone() },
            Error::InvalidUtf8 { path } => Error::InvalidUtf8 { path: path.clone() },
            Error::SystemTime { message } => Error::SystemTime { message: message.clone() },
            Error::Multiple { count, errors } => {
                let mut copies: Vec<Error> = Vec::new();
                let mut i: usize = 0;
                while i < errors.len()
                    invariant
                        i <= errors.len(),
                        self matches Error::Multiple { errors: all, .. } && all == *errors,
                    decreases errors.len() - i,
                {
                    copies.push(errors[i].clone());
                    i = i + 1;
                }
                Error::Multiple { count: *count, errors: copies }
            },
            Error::InvalidPattern { pattern, reason } => Error::InvalidPattern {
                pattern: pattern.clone(),
                reason: reason.clone(),
            },
        }
    }
}

impl From<SystemTimeError> for Error {
    fn from(e: SystemTimeError) -> (error: Self)
        ensures
            error is SystemTime,
    {
        Error::SystemTime { message: system_time_message(&e) }
    }
}

impl vstd::std_specs::convert::FromSpecImpl<SystemTimeError> for Error {
    open spec fn obeys_from_spec() -> bool {
        false
    }

    open spec fn from_spec(e: SystemTimeError) -> Self {
        arbitrary()
    }
}

} // verus!

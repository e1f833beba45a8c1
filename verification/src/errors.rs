//! The error taxonomy of the manager, with the HTTP status and message
//! each error is reported under.

use vstd::prelude::*;
use vstd::string::*;

verus! {

/// Errors of instance-level API operations.
#[derive(Clone, Debug, PartialEq, Eq)]
pub enum ServerError {
    NotFound,
    AlreadyRunning,
    NotRunning,
    ServerRunning,
    InvalidServerType,
    NoInputChannel,
    Internal(String),
}

/// Errors of the process handle itself.
#[derive(Clone, Debug, PartialEq, Eq)]
pub enum ProcessError {
    ExecutableMissing,
    SpawnFailed(String),
    NoInputChannel,
}

/// Errors of the file-browsing operations.
#[derive(Clone, Debug, PartialEq, Eq)]
pub enum FileError {
    NotFound,
    InvalidPath,
    NotADirectory,
    NotAFile,
    FileTooLarge,
    Internal(String),
}

#[derive(Clone, Debug, PartialEq, Eq)]
pub enum AuthError {
    InvalidCredentials,
    InvalidToken,
    TokenCreation,
}

/// Error of a resource-usage query on a process the OS no longer has.
#[derive(Clone, Copy, Debug, PartialEq, Eq, Structural)]
pub enum StatsError {
    ProcessNotFound,
}

impl ServerError {
    pub open spec fn spec_status(&self) -> u16 {
        match self {
            ServerError::NotFound => 404,
            ServerError::AlreadyRunning => 409,
            ServerError::NotRunning => 409,
            ServerError::ServerRunning => 409,
            ServerError::InvalidServerType => 400,
            ServerError::NoInputChannel => 409,
            ServerError::Internal(_) => 500,
        }
    }

    pub open spec fn spec_message(&self) -> Seq<char> {
        match self {
            ServerError::NotFound => "Server not found"@,
            ServerError::AlreadyRunning => "Server already running"@,
            ServerError::NotRunning => "Server not running"@,
            ServerError::ServerRunning => "Cannot delete running server"@,
            ServerError::InvalidServerType => "Invalid server type"@,
            ServerError::NoInputChannel => "Server input channel is not attached"@,
            ServerError::Internal(_) => "Internal server error"@,
        }
    }

    /// The HTTP status code and body this error is reported with.
    pub fn response_parts(&self) -> (r: (u16, String))
        ensures
            r.0 == self.spec_status(),
            r.1@ == self.spec_message(),
    {
        match self {
            ServerError::NotFound => (404, "Server not found".to_owned()),
            ServerError::AlreadyRunning => (409, "Server already running".to_owned()),
            ServerError::NotRunning => (409, "Server not running".to_owned()),
            ServerError::ServerRunning => (409, "Cannot delete running server".to_owned()),
            ServerError::InvalidServerType => (400, "Invalid server type".to_owned()),
            ServerError::NoInputChannel => (
                409,
                "Server input channel is not attached".to_owned(),
            ),
            ServerError::Internal(_) => (500, "Internal server error".to_owned()),
        }
    }
}

impl FileError {
    pub open spec fn spec_status(&self) -> u16 {
        match self {
            FileError::NotFound => 404,
            FileError::InvalidPath => 400,
            FileError::NotADirectory => 400,
            FileError::NotAFile => 400,
            FileError::FileTooLarge => 413,
            FileError::Internal(_) => 500,
        }
    }

    pub open spec fn spec_message(&self) -> Seq<char> {
        match self {
            FileError::NotFound => "Server not found"@,
            FileError::InvalidPath => "Invalid path"@,
            FileError::NotADirectory => "Path is not a directory"@,
            FileError::NotAFile => "Path is not a file"@,
            FileError::FileTooLarge => "File is too large"@,
            FileError::Internal(_) => "Internal server error"@,
        }
    }

    /// The HTTP status code and body this error is reported with.
    pub fn response_parts(&self) -> (r: (u16, String))
        ensures
            r.0 == self.spec_status(),
            r.1@ == self.spec_message(),
    {
        match self {
            FileError::NotFound => (404, "Server not found".to_owned()),
            FileError::InvalidPath => (400, "Invalid path".to_owned()),
            FileError::NotADirectory => (400, "Path is not a directory".to_owned()),
            FileError::NotAFile => (400, "Path is not a file".to_owned()),
            FileError::FileTooLarge => (413, "File is too large".to_owned()),
            FileError::Internal(_) => (500, "Internal server error".to_owned()),
        }
    }
}

impl AuthError {
    pub open spec fn spec_status(&self) -> u16 {
        match self {
            AuthError::InvalidCredentials => 401,
            AuthError::InvalidToken => 401,
            AuthError::TokenCreation => 500,
        }
    }

    pub open spec fn spec_message(&self) -> Seq<char> {
        match self {
            AuthError::InvalidCredentials => "Invalid credentials"@,
            AuthError::InvalidToken => "Invalid token"@,
            AuthError::TokenCreation => "Token creation failed"@,
        }
    }

    /// The HTTP status code and body this error is reported with.
    pub fn response_parts(&self) -> (r: (u16, String))
        ensures
            r.0 == self.spec_status(),
            r.1@ == self.spec_message(),
    {
        match self {
            AuthError::InvalidCredentials => (401, "Invalid credentials".to_owned()),
            AuthError::InvalidToken => (401, "Invalid token".to_owned()),
            AuthError::TokenCreation => (500, "Token creation failed".to_owned()),
        }
    }
}

} // verus!

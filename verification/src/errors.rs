//! Error types and process exit codes.
use vstd::prelude::*;

verus! {

/// Errors raised while reading configurations and resolving queries.
#[derive(Debug)]
pub enum GardenError {
    AssertionError(String),
    ConfigurationError(String),
    CreateConfigurationError { path: String, err: String },
    EmptyConfiguration { path: String },
    /// ExitStatus is used to exit without printing an error message.
    ExitStatus(i32),
    FileExists(String),
    FileNotFound,
    GardenNotFound { garden: String },
    GardenPatternError { garden: String },
    IOError(String),
    InvalidConfiguration { msg: String },
    InvalidGardenArgument { tree: String, garden: String },
    OSError(String),
    ReadConfig { err: String, path: String },
    ReadFile { path: String, err: String },
    SyncConfigurationError { path: String, err: String },
    TreeNotFound { tree: String },
    Usage(String),
    WorktreeGitCheckoutError { tree: String, status: i32 },
    WorktreeNotFound { worktree: String, tree: String },
    WorktreeParentCreationError { worktree: String, tree: String },
    WorktreeParentNotPlantedError { parent: String, tree: String },
    WriteConfigurationError { path: String },
}

/// Errors raised by commands.
pub enum CommandError {
    /// ExitStatus is used to exit without printing an error message.
    ExitStatus { command: String, status: i32 },
}

// /usr/include/sysexits.h
pub const EX_OK: i32 = 0;

pub const EX_ERROR: i32 = 1;

pub const EX_USAGE: i32 = 64;

pub const EX_DATAERR: i32 = 65;

pub const EX_UNAVAILABLE: i32 = 69;

pub const EX_SOFTWARE: i32 = 70;

pub const EX_OSERR: i32 = 71;

pub const EX_CANTCREAT: i32 = 73;

pub const EX_IOERR: i32 = 74;

pub const EX_CONFIG: i32 = 78;

/// The process exit code that reports an error.
pub open spec fn spec_exit_code(err: GardenError) -> i32 {
    match err {
        GardenError::AssertionError(_) => EX_SOFTWARE,
        GardenError::ConfigurationError(_) => EX_CONFIG,
        GardenError::CreateConfigurationError { .. } => EX_CANTCREAT,
        GardenError::EmptyConfiguration { .. } => EX_CONFIG,
        GardenError::ExitStatus(status) => status,
        GardenError::FileExists(_) => EX_CANTCREAT,
        GardenError::FileNotFound => EX_IOERR,
        GardenError::GardenNotFound { .. } => EX_USAGE,
        GardenError::GardenPatternError { .. } => EX_DATAERR,
        GardenError::IOError(_) => EX_IOERR,
        GardenError::InvalidConfiguration { .. } => EX_CONFIG,
        GardenError::InvalidGardenArgument { .. } => EX_USAGE,
        GardenError::OSError(_) => EX_OSERR,
        GardenError::ReadConfig { .. } => EX_DATAERR,
        GardenError::ReadFile { .. } => EX_IOERR,
        GardenError::SyncConfigurationError { .. } => EX_IOERR,
        GardenError::TreeNotFound { .. } => EX_USAGE,
        GardenError::Usage(_) => EX_USAGE,
        GardenError::WorktreeGitCheckoutError { .. } => EX_CANTCREAT,
        GardenError::WorktreeParentCreationError { .. } => EX_CANTCREAT,
        GardenError::WorktreeParentNotPlantedError { .. } => EX_CONFIG,
        GardenError::WorktreeNotFound { .. } => EX_CONFIG,
        GardenError::WriteConfigurationError { .. } => EX_CANTCREAT,
    }
}

impl GardenError {
    /// Map an error onto its process exit code.
    pub fn exit_code(&self) -> (code: i32)
        ensures
            code == spec_exit_code(*self),
    {
        match self {
            GardenError::AssertionError(_) => EX_SOFTWARE,
            GardenError::ConfigurationError(_) => EX_CONFIG,
            GardenError::CreateConfigurationError { .. } => EX_CANTCREAT,
            GardenError::EmptyConfiguration { .. } => EX_CONFIG,
            GardenError::ExitStatus(status) => *status,
            GardenError::FileExists(_) => EX_CANTCREAT,
            GardenError::FileNotFound => EX_IOERR,
            GardenError::GardenNotFound { .. } => EX_USAGE,
            GardenError::GardenPatternError { .. } => EX_DATAERR,
            GardenError::IOError(_) => EX_IOERR,
            GardenError::InvalidConfiguration { .. } => EX_CONFIG,
            GardenError::InvalidGardenArgument { .. } => EX_USAGE,
            GardenError::OSError(_) => EX_OSERR,
            GardenError::ReadConfig { .. } => EX_DATAERR,
            GardenError::ReadFile { .. } => EX_IOERR,
            GardenError::SyncConfigurationError { .. } => EX_IOERR,
            GardenError::TreeNotFound { .. } => EX_USAGE,
            GardenError::Usage(_) => EX_USAGE,
            GardenError::WorktreeGitCheckoutError { .. } => EX_CANTCREAT,
            GardenError::WorktreeParentCreationError { .. } => EX_CANTCREAT,
            GardenError::WorktreeParentNotPlantedError { .. } => EX_CONFIG,
            GardenError::WorktreeNotFound { .. } => EX_CONFIG,
            GardenError::WriteConfigurationError { .. } => EX_CANTCREAT,
        }
    }
}

/// Convert an exit status into a result: zero is success.
pub fn result_from_exit_status(exit_status: i32) -> (r: Result<(), GardenError>)
    ensures
        exit_status == EX_OK <==> r is Ok,
        r matches Err(GardenError::ExitStatus(status)) ==> status == exit_status,
        r is Err ==> r->Err_0 is ExitStatus,
{
    if exit_status == EX_OK {
        Ok(())
    } else {
        Err(GardenError::ExitStatus(exit_status))
    }
}

} // verus!

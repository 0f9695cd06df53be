//! Domain errors and the top-level [`CliError`] that maps them onto
//! process exit codes: 2 for validation or ci-check findings, 1 for
//! everything else.

use vstd::prelude::*;
use crate::issues::{append_num, append_str};
use crate::text::{dec, owned};

verus! {

/// Errors raised when creating a new node.
#[derive(Debug)]
pub enum CreateError {
    /// The kind is not in the governing profile's allow-list.
    InvalidKind {
        /// The rejected kind.
        kind: String,
        /// The profile that rejected it.
        profile_id: u64,
        /// The accepted kinds, joined with `, `.
        allowed: String,
    },
}

/// Errors raised by `validate`.
#[derive(Debug, Clone, Copy, PartialEq, Eq, Structural)]
pub enum ValidationError {
    /// Issues were reported.
    IssuesFound {
        /// How many.
        count: usize,
    },
}

/// Errors raised by `ci-check`.
#[derive(Debug, Clone, Copy, PartialEq, Eq, Structural)]
pub enum CiCheckError {
    /// Issues were reported.
    IssuesFound {
        /// How many.
        count: usize,
    },
}

/// Top-level error of a command.
#[derive(Debug)]
pub enum CliError {
    /// Create-flow failure.
    Create(CreateError),
    /// Validation findings.
    Validation(ValidationError),
    /// CI-check findings.
    CiCheck(CiCheckError),
    /// Anything else, as its message.
    Other(String),
}

/// The message of a [`CreateError`].
pub open spec fn create_error_text(e: CreateError) -> Seq<char> {
    match e {
        CreateError::InvalidKind { kind, profile_id, allowed } => "kind '"@ + kind@
            + "' not allowed by profile "@ + dec(profile_id as nat) + " — allowed: "@ + allowed@,
    }
}

/// The message of a [`CliError`].
pub open spec fn cli_error_text(e: CliError) -> Seq<char> {
    match e {
        CliError::Create(c) => create_error_text(c),
        CliError::Validation(ValidationError::IssuesFound { count }) => dec(count as nat)
            + " validation issue(s) found"@,
        CliError::CiCheck(CiCheckError::IssuesFound { count }) => dec(count as nat)
            + " ci-check issue(s) found"@,
        CliError::Other(m) => m@,
    }
}

/// The exit code of a [`CliError`].
pub open spec fn exit_code_of(e: CliError) -> u8 {
    match e {
        CliError::Validation(_) | CliError::CiCheck(_) => 2,
        _ => 1,
    }
}

impl CreateError {
    /// The error message.
    pub fn message(&self) -> (r: String)
        ensures
            r@ == create_error_text(*self),
    {
        match self {
            CreateError::InvalidKind { kind, profile_id, allowed } => {
                let mut m = owned("kind '");
                append_str(&mut m, kind.as_str());
                append_str(&mut m, "' not allowed by profile ");
                append_num(&mut m, *profile_id);
                append_str(&mut m, " — allowed: ");
                append_str(&mut m, allowed.as_str());
                m
            },
        }
    }
}

impl CliError {
    /// The process exit code: 2 for validation or ci-check findings,
    /// 1 for everything else.
    pub fn exit_code(&self) -> (r: u8)
        ensures
            r == exit_code_of(*self),
    {
        match self {
            CliError::Validation(_) | CliError::CiCheck(_) => 2,
            _ => 1,
        }
    }

    /// The error message.
    pub fn message(&self) -> (r: String)
        ensures
            r@ == cli_error_text(*self),
    {
        match self {
            CliError::Create(c) => c.message(),
            CliError::Validation(ValidationError::IssuesFound { count }) => {
                let mut m = crate::text::u64_to_string(*count as u64);
                append_str(&mut m, " validation issue(s) found");
                m
            },
            CliError::CiCheck(CiCheckError::IssuesFound { count }) => {
                let mut m = crate::text::u64_to_string(*count as u64);
                append_str(&mut m, " ci-check issue(s) found");
                m
            },
            CliError::Other(m) => m.clone(),
        }
    }
}

} // verus!

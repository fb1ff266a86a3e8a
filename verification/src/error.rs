//! The failures of a hash computation and of a benchmark run, and the text
//! under which each is shown to the operator.

use vstd::prelude::*;
use crate::hashers::Preset;

verus! {

/// Why a hash computation failed. Each variant carries the text that the
/// hashing backend gave for the failure.
#[derive(Debug, Clone)]
pub enum HashError {
    /// The Argon2 cost parameters were refused.
    InvalidParams(String),
    /// The random source gave no salt.
    Salt(String),
    /// Argon2 failed while hashing.
    Hashing(String),
    /// bcrypt failed.
    Bcrypt(String),
}

impl HashError {
    /// The text under which the failure is shown.
    pub open spec fn spec_message(&self) -> Seq<char> {
        match self {
            HashError::InvalidParams(detail) => "Invalid Argon2 params: "@ + detail@,
            HashError::Salt(detail) => "Salt error: "@ + detail@,
            HashError::Hashing(detail) => "Hashing error: "@ + detail@,
            HashError::Bcrypt(detail) => detail@,
        }
    }

    /// The text under which the failure is shown.
    pub fn message(&self) -> (r: String)
        ensures
            r@ == self.spec_message(),
    {
        match self {
            HashError::InvalidParams(detail) => {
                let mut r = "Invalid Argon2 params: ".to_owned();
                r.append(detail.as_str());
                r
            },
            HashError::Salt(detail) => {
                let mut r = "Salt error: ".to_owned();
                r.append(detail.as_str());
                r
            },
            HashError::Hashing(detail) => {
                let mut r = "Hashing error: ".to_owned();
                r.append(detail.as_str());
                r
            },
            HashError::Bcrypt(detail) => detail.clone(),
        }
    }
}

/// Why a benchmark run, or one preset of it, failed.
#[derive(Debug, Clone)]
pub enum BenchError {
    /// The requested name matches no preset. Nothing was run.
    PresetNotFound(String),
    /// No preset was selected. Nothing was run.
    EmptyWorklist,
    /// One preset's hash computation failed; the other presets are not
    /// affected.
    HashComputationFailed { preset: Preset, cause: HashError },
    /// The report could not be written.
    ReportPersistenceFailed(String),
}

impl BenchError {
    /// The text under which the failure is shown.
    pub open spec fn spec_message(&self) -> Seq<char> {
        match self {
            BenchError::PresetNotFound(name) => "Preset not found: "@ + name@,
            BenchError::EmptyWorklist => "No valid presets found, aborting benchmark."@,
            BenchError::HashComputationFailed { preset, cause } => "Failed to hash: "@
                + cause.spec_message(),
            BenchError::ReportPersistenceFailed(cause) => "Failed to save benchmark results: "@
                + cause@,
        }
    }

    /// The text under which the failure is shown.
    pub fn message(&self) -> (r: String)
        ensures
            r@ == self.spec_message(),
    {
        match self {
            BenchError::PresetNotFound(name) => {
                let mut r = "Preset not found: ".to_owned();
                r.append(name.as_str());
                r
            },
            BenchError::EmptyWorklist => "No valid presets found, aborting benchmark.".to_owned(),
            BenchError::HashComputationFailed { preset, cause } => {
                let mut r = "Failed to hash: ".to_owned();
                r.append(cause.message().as_str());
                r
            },
            BenchError::ReportPersistenceFailed(cause) => {
                let mut r = "Failed to save benchmark results: ".to_owned();
                r.append(cause.as_str());
                r
            },
        }
    }
}

} // verus!

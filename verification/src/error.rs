use vstd::prelude::*;

verus! {

/// Failures of the simulation runtime.
#[derive(Debug, Clone, PartialEq, Eq)]
pub enum SimulationError {
    /// A value handed to the simulation was not finite or not positive.
    Invalid(String),
    /// No body was registered under this index.
    UnknownBody(usize),
    /// A body would intersect a wall or leave the map.
    BodyCollision,
    /// The simulation module reported a failure while initializing.
    ModuleInitialization(String),
}

/// Failures of the AMR module.
#[derive(Debug, Clone, PartialEq, Eq)]
pub enum AmrError {
    /// A configuration value is out of its valid range.
    InvalidConfig(String),
    /// A motor command held a value that is not finite.
    NonFiniteMotorCommand,
}

/// Failures of building, generating, reading or writing a map.
#[derive(Debug)]
pub enum MapError {
    /// The map's bounds or one of its walls is invalid.
    Invalid(String),
    /// Reading or writing the map failed.
    Io(std::io::Error),
    /// The map file is not valid JSON of the expected shape.
    Json(serde_json::Error),
    /// The map file carries a format version this library does not read.
    UnsupportedVersion(u32),
    /// Not all requested walls could be placed within the map.
    GenerationFailed,
}

/// The error of reading or writing a map file.
#[verifier::external_type_specification]
#[verifier::external_body]
pub struct ExIoError(std::io::Error);

/// The error of decoding or encoding a map file as JSON.
#[verifier::external_type_specification]
#[verifier::external_body]
pub struct ExJsonError(serde_json::Error);

} // verus!

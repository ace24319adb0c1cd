//! Typed library errors.
use vstd::prelude::*;

verus! {

/// An I/O failure, as reported by the standard library.
#[verifier::external_type_specification]
#[verifier::external_body]
pub struct ExIoError(std::io::Error);

/// A TOML syntax or shape error, as reported by the `toml` crate.
#[verifier::external_type_specification]
#[verifier::external_body]
pub struct ExTomlError(toml::de::Error);

/// Errors raised while loading, parsing, or validating configuration.
pub enum ConfigError {
    /// The config file could not be read.
    Read { path: String, source: std::io::Error },
    /// The config file is not valid TOML for the config's shape.
    Parse { path: String, source: toml::de::Error },
    /// The config parsed but cannot produce sensible behaviour.
    Invalid(String),
}

} // verus!

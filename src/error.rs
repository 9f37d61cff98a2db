//! Errors of the library.
use vstd::prelude::*;

verus! {

/// What went wrong. The variants that wrap an outside error carry its text.
#[derive(Debug, Clone)]
pub enum ChainError {
    Config(String),
    AccountGeneration(String),
    Rpc(String),
    NodeManagement(String),
    Io(String),
    Serialization(String),
    TomlParsing(String),
    NotRunning,
    AlreadyRunning,
    Other(String),
}

/// The text of an error.
pub open spec fn error_message(e: ChainError) -> Seq<char> {
    match e {
        ChainError::Config(m) => "Configuration error: "@ + m@,
        ChainError::AccountGeneration(m) => "Account generation error: "@ + m@,
        ChainError::Rpc(m) => "RPC error: "@ + m@,
        ChainError::NodeManagement(m) => "Node management error: "@ + m@,
        ChainError::Io(m) => "I/O error: "@ + m@,
        ChainError::Serialization(m) => "Serialization error: "@ + m@,
        ChainError::TomlParsing(m) => "TOML parsing error: "@ + m@,
        ChainError::NotRunning => "Chain not running"@,
        ChainError::AlreadyRunning => "Chain already running"@,
        ChainError::Other(m) => m@,
    }
}

impl ChainError {
    /// The error's text.
    pub fn message(&self) -> (r: String)
        ensures
            r@ == error_message(*self),
    {
        match self {
            ChainError::Config(m) => String::from_str("Configuration error: ").concat(m.as_str()),
            ChainError::AccountGeneration(m) => String::from_str("Account generation error: ").concat(
                m.as_str(),
            ),
            ChainError::Rpc(m) => String::from_str("RPC error: ").concat(m.as_str()),
            ChainError::NodeManagement(m) => String::from_str("Node management error: ").concat(
                m.as_str(),
            ),
            ChainError::Io(m) => String::from_str("I/O error: ").concat(m.as_str()),
            ChainError::Serialization(m) => String::from_str("Serialization error: ").concat(
                m.as_str(),
            ),
            ChainError::TomlParsing(m) => String::from_str("TOML parsing error: ").concat(m.as_str()),
            ChainError::NotRunning => String::from_str("Chain not running"),
            ChainError::AlreadyRunning => String::from_str("Chain already running"),
            ChainError::Other(m) => m.clone(),
        }
    }
}

} // verus!

//! Errors of the assembler.
use vstd::prelude::*;
use crate::target::{Architecture, CompilationTarget};

verus! {

/// What can go wrong while converting, compiling or configuring.
#[derive(Debug)]
pub enum GaiaError {
    /// An instruction that the target cannot take, with the target's architecture.
    InvalidInstruction { instruction: String, architecture: Architecture },
    /// A feature that is not implemented for the target.
    NotImplemented { feature: String },
    /// A float literal operand, whose value only a float parser can give.
    FloatLiteral { opcode: String, text: String },
    /// No backend fits the requested target.
    UnsupportedTarget { target: CompilationTarget },
    /// Input data that cannot be used.
    InvalidData { message: String },
    /// An error of an adapter registry.
    AdapterError { adapter: String, message: String, source: Option<Box<GaiaError>> },
    /// An error in reading or writing configuration.
    ConfigError { path: Option<String>, message: String },
    /// Any other error.
    Custom { message: String },
}

impl GaiaError {
    /// An instruction that the given architecture cannot take.
    pub fn invalid_instruction(instruction: &str, architecture: Architecture) -> (e: GaiaError)
        ensures
            e matches GaiaError::InvalidInstruction { instruction: i, architecture: a } && i@
                == instruction@ && a@ == architecture@,
    {
        GaiaError::InvalidInstruction { instruction: String::from_str(instruction), architecture }
    }

    /// A feature that is not implemented.
    pub fn not_implemented(feature: &str) -> (e: GaiaError)
        ensures
            e matches GaiaError::NotImplemented { feature: f } && f@ == feature@,
    {
        GaiaError::NotImplemented { feature: String::from_str(feature) }
    }

    /// Any other error, with a message.
    pub fn custom_error(message: &str) -> (e: GaiaError)
        ensures
            e matches GaiaError::Custom { message: m } && m@ == message@,
    {
        GaiaError::Custom { message: String::from_str(message) }
    }
}

} // verus!

//! Error taxonomy of the orchestration core.
//!
//! Binding-management errors are returned to the caller as structured
//! responses; an engine error ends one transcription cycle and nothing else.

use vstd::prelude::*;

verus! {

#[derive(Clone, Copy, Debug, PartialEq, Eq, Structural)]
pub enum CoreError {
    /// The referenced binding id does not exist.
    NotFound,
    /// The supplied key-combination string is not a valid hotkey expression.
    ParseError,
    /// The OS hotkey subsystem refused to register or unregister a combination.
    RegistrationError,
    /// The inference engine failed to process an audio buffer.
    EngineError,
}

impl CoreError {
    pub open spec fn spec_message(self) -> Seq<char> {
        match self {
            CoreError::NotFound => "binding not found"@,
            CoreError::ParseError => "invalid key combination"@,
            CoreError::RegistrationError => "shortcut registration refused"@,
            CoreError::EngineError => "inference engine failure"@,
        }
    }

    /// A human-readable description, one fixed line per variant.
    pub fn message(&self) -> (r: String)
        ensures
            r@ == self.spec_message(),
    {
        match self {
            CoreError::NotFound => String::from_str("binding not found"),
            CoreError::ParseError => String::from_str("invalid key combination"),
            CoreError::RegistrationError => String::from_str("shortcut registration refused"),
            CoreError::EngineError => String::from_str("inference engine failure"),
        }
    }
}

} // verus!

//! The two ways in which the sign can refuse to work. Both point at a defect
//! in the build or the wiring, so neither is meant to be recovered from.

use vstd::prelude::*;

verus! {

/// The configuration does not fit the layout of the matrix.
#[derive(Clone, Copy, Debug, PartialEq, Eq, Structural)]
pub enum ConfigError {
    /// The pin table does not hold one line per row and one per column.
    PinCount,
    /// A frame does not hold one entry per cell.
    FrameLength,
    /// An animation holds no frame at all.
    EmptySequence,
    /// A frame of an animation has no lit cell, so the scan could never stop
    /// on it.
    DarkFrame,
}

/// The mailbox held a token that is not the tick.
#[derive(Clone, Copy, Debug, PartialEq, Eq, Structural)]
pub struct UnexpectedSignal {
    /// The token that was found.
    pub token: u32,
}

impl ConfigError {
    /// A sentence for the log or the panic message.
    pub fn message(&self) -> (text: &'static str)
        ensures
            text@ == (match *self {
                ConfigError::PinCount => "Number of pins does not match the layout dimensions."@,
                ConfigError::FrameLength => "Reference length does not match the layout dimensions."@,
                ConfigError::EmptySequence => "An animation holds no frame."@,
                ConfigError::DarkFrame => "A frame has no lit cell."@,
            }),
    {
        match self {
            ConfigError::PinCount => "Number of pins does not match the layout dimensions.",
            ConfigError::FrameLength => "Reference length does not match the layout dimensions.",
            ConfigError::EmptySequence => "An animation holds no frame.",
            ConfigError::DarkFrame => "A frame has no lit cell.",
        }
    }
}

} // verus!

//! The configuration of one run.

use crate::bitness::{ConfigError, Transitions, Width};
use crate::decode::valid_bitness;
use vstd::prelude::*;

verus! {

/// What a run is configured with, as given on the command line.
#[derive(Copy, Clone, Debug)]
pub struct Config {
    /// The target bitness: 16, 32 or 64.
    pub bits: u8,
    /// Trace offset of the first 32-bit instruction.
    pub offset_32bit: Option<u64>,
    /// Trace offset of the first 64-bit instruction.
    pub offset_64bit: Option<u64>,
    /// Whether the trace starts at 16 bits and widens up to the target.
    pub system_mode: bool,
}

/// The width of `bits` bits; 16 bits for a number that is no width.
pub open spec fn width_of_bits(bits: u8) -> Width {
    if bits == 64 {
        Width::Width64
    } else if bits == 32 {
        Width::Width32
    } else {
        Width::Width16
    }
}

impl Config {
    /// The width that linear mode decodes at, or the error for a bitness
    /// that is none of 16, 32, 64. The offsets play no part.
    pub open spec fn spec_target(self) -> Result<Width, ConfigError> {
        if valid_bitness(self.bits as u32) {
            Ok(width_of_bits(self.bits))
        } else {
            Err(ConfigError::InvalidBits(self.bits))
        }
    }

    /// What the tracker of system mode is configured with, or the first
    /// error: the bitness is checked before the offsets, the 32-bit offset
    /// before the 64-bit one.
    pub open spec fn spec_transitions(self) -> Result<Transitions, ConfigError> {
        let t = Transitions {
            target: width_of_bits(self.bits),
            offset_32bit: self.offset_32bit,
            offset_64bit: self.offset_64bit,
        };
        if !valid_bitness(self.bits as u32) {
            Err(ConfigError::InvalidBits(self.bits))
        } else {
            match t.check() {
                Ok(_) => Ok(t),
                Err(e) => Err(e),
            }
        }
    }

    /// The width that linear mode decodes at.
    #[verifier::when_used_as_spec(spec_target)]
    pub fn target(self) -> (r: Result<Width, ConfigError>)
        ensures
            r == self.spec_target(),
    {
        match Width::from_bits(self.bits) {
            Some(width) => Ok(width),
            None => Err(ConfigError::InvalidBits(self.bits)),
        }
    }

    /// What the tracker of system mode is configured with.
    #[verifier::when_used_as_spec(spec_transitions)]
    pub fn transitions(self) -> (r: Result<Transitions, ConfigError>)
        ensures
            r == self.spec_transitions(),
            r matches Ok(t) ==> t.complete(),
    {
        let target = match Width::from_bits(self.bits) {
            Some(width) => width,
            None => {
                return Err(ConfigError::InvalidBits(self.bits));
            },
        };
        Transitions::new(target, self.offset_32bit, self.offset_64bit)
    }
}

} // verus!

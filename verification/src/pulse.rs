//! The samples delivered by the receive peripheral.

use vstd::prelude::*;

verus! {

/// Line level during one half of a symbol: `High` while the carrier is
/// present, `Low` during a pause.
#[derive(Clone, Copy, Debug, PartialEq, Eq, Structural)]
pub enum Level {
    Low,
    High,
}

/// A level held for a number of microseconds.
#[derive(Clone, Copy, Debug, PartialEq, Eq, Structural)]
pub struct PulseSample {
    pub level: Level,
    pub duration: u16,
}

/// One symbol slot as the peripheral reports it: the half received first,
/// then the half received after it.
#[derive(Clone, Copy, Debug, PartialEq, Eq, Structural)]
pub struct Symbol {
    pub first: PulseSample,
    pub second: PulseSample,
}

impl Symbol {
    /// The duration that carries the symbol's value: that of the first half
    /// when it is a pause, that of the second half otherwise.
    pub open spec fn spec_pause(&self) -> u16 {
        if self.first.level == Level::Low {
            self.first.duration
        } else {
            self.second.duration
        }
    }

    /// Builds a symbol from its two halves.
    pub fn new(level1: Level, length1: u16, level2: Level, length2: u16) -> (s: Symbol)
        ensures
            s == (Symbol {
                first: PulseSample { level: level1, duration: length1 },
                second: PulseSample { level: level2, duration: length2 },
            }),
    {
        Symbol {
            first: PulseSample { level: level1, duration: length1 },
            second: PulseSample { level: level2, duration: length2 },
        }
    }

    #[verifier::when_used_as_spec(spec_pause)]
    pub fn pause(&self) -> (d: u16)
        ensures
            d == self.spec_pause(),
    {
        match self.first.level {
            Level::Low => self.first.duration,
            Level::High => self.second.duration,
        }
    }
}

} // verus!

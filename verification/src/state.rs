//! The raw key-state byte as a driver reports it: a press/repeat transition
//! in the low bits and a modifier combination in the high bits.

use vstd::prelude::*;

verus! {

/// Bit set in a state byte when the key went down.
pub const PRESS: u8 = 0b0000_0001;
/// Bit set in a state byte when the transition is an auto-repeat.
pub const REPEAT: u8 = 0b0000_0010;
/// Mask of the modifier bits that [`State::pressed_with`] compares.
pub const MOD_MASK: u8 = 0b1110_0000;

/// A modifier combination that a raw key state can be matched against.
#[derive(Clone, Copy, Debug, PartialEq, Eq, Structural)]
pub enum Mods {
    /// No modifiers held.
    Plain,
    /// Shift.
    Shift,
    /// Control + Shift, or a platform's single Alt.
    Alt,
    /// Control, or a platform's Command.
    Ctrl,
    /// Option, AltGr, or a platform's right Alt.
    Opt,
    /// Option + Shift, or AltGr + Shift.
    ShiftOpt,
    /// Control + Option, also left thumb + right thumb.
    CtrlOpt,
}

impl Mods {
    /// The modifier bits of this combination inside a state byte.
    pub open spec fn spec_bits(self) -> u8 {
        match self {
            Mods::Plain => 0b0000_0000,
            Mods::Shift => 0b1000_0000,
            Mods::Alt => 0b1100_0000,
            Mods::Ctrl => 0b0100_0000,
            Mods::Opt => 0b0010_0000,
            Mods::ShiftOpt => 0b1010_0000,
            Mods::CtrlOpt => 0b0011_0000,
        }
    }

    /// The modifier bits of this combination inside a state byte.
    pub fn bits(self) -> (r: u8)
        ensures
            r == self.spec_bits(),
    {
        match self {
            Mods::Plain => 0b0000_0000,
            Mods::Shift => 0b1000_0000,
            Mods::Alt => 0b1100_0000,
            Mods::Ctrl => 0b0100_0000,
            Mods::Opt => 0b0010_0000,
            Mods::ShiftOpt => 0b1010_0000,
            Mods::CtrlOpt => 0b0011_0000,
        }
    }
}

/// State of a key, packed into one byte.
#[derive(Clone, Copy, Debug, PartialEq, Eq, Structural)]
pub struct State(pub u8);

impl State {
    /// Whether the key state changed to pressed (not a repeat).
    pub fn pressed(&self) -> (r: bool)
        ensures
            r == (self.0 & (PRESS | REPEAT) == PRESS),
    {
        self.0 & (PRESS | REPEAT) == PRESS
    }

    /// Whether this is a repeated transition of textual input.
    pub fn repeated(&self) -> (r: bool)
        ensures
            r == (self.0 & REPEAT == REPEAT),
    {
        self.0 & REPEAT == REPEAT
    }

    /// Whether the key was either pressed or repeated.
    pub fn inputted(&self) -> (r: bool)
        ensures
            r == (self.0 & (PRESS | REPEAT) != 0),
    {
        self.0 & (PRESS | REPEAT) != 0
    }

    /// Whether the key was pressed with exactly the given modifier
    /// combination.
    pub fn pressed_with(&self, mods: Mods) -> (r: bool)
        ensures
            r == (self.0 & (MOD_MASK | PRESS) == (mods.spec_bits() | PRESS)),
    {
        self.0 & (MOD_MASK | PRESS) == mods.bits() | PRESS
    }
}

} // verus!

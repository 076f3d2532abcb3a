//! The modifier register: eight independently settable flags packed into one
//! byte.  Every byte value is a legal register state.

use vstd::prelude::*;

verus! {

/// Bit for the composing flag.
pub const COMPOSING: u8 = 0b1000_0000;
/// Bit for the graph (AltGr / Option) flag.
pub const GRAPH: u8 = 0b0100_0000;
/// Bit for the application (Ctrl / Command) flag.
pub const APP: u8 = 0b0010_0000;
/// Bit for the program (Alt / Control) flag.
pub const PRG: u8 = 0b0001_0000;
/// Bit for the shift flag.
pub const SHIFT: u8 = 0b0000_1000;
/// Bit for the emoji (Space) flag.
pub const EMOJI: u8 = 0b0000_0100;
/// Bit for the left thumb button flag.
pub const LTB: u8 = 0b0000_0010;
/// Bit for the right thumb button flag.
pub const RTB: u8 = 0b0000_0001;

/// Keyboard modifiers: eight flags packed into one byte.
///
/// All 256 byte values are valid register states; flags are set and cleared
/// independently of one another.
#[derive(Clone, Copy, Debug, PartialEq, Eq, Structural)]
pub struct Mods(pub u8);

impl Mods {
    /// Create a new modifier state with every flag clear.
    pub fn new() -> (r: Self)
        ensures
            r.0 == 0,
    {
        Mods(0)
    }

    /// Set or clear the flag bits given by `what`, leaving the rest alone.
    fn set(&mut self, what: u8, to: bool)
        ensures
            final(self).0 == if to {
                old(self).0 | what
            } else {
                old(self).0 & !what
            },
    {
        if to {
            self.0 = self.0 | what;
        } else {
            self.0 = self.0 & !what;
        }
    }

    /// Whether any of the flag bits given by `what` is set.
    fn get(&self, what: u8) -> (r: bool)
        ensures
            r == (self.0 & what != 0),
    {
        self.0 & what != 0
    }

    /// Set composing.
    pub fn set_composing(&mut self, value: bool)
        ensures
            final(self).0 == if value {
                old(self).0 | COMPOSING
            } else {
                old(self).0 & !COMPOSING
            },
    {
        self.set(COMPOSING, value)
    }

    /// Set the graph (AltGr / Option) key.
    pub fn set_graph(&mut self, value: bool)
        ensures
            final(self).0 == if value {
                old(self).0 | GRAPH
            } else {
                old(self).0 & !GRAPH
            },
    {
        self.set(GRAPH, value)
    }

    /// Set the application (Ctrl / Command) key.
    pub fn set_app(&mut self, value: bool)
        ensures
            final(self).0 == if value {
                old(self).0 | APP
            } else {
                old(self).0 & !APP
            },
    {
        self.set(APP, value)
    }

    /// Set the program (Alt / Control) key.
    pub fn set_prg(&mut self, value: bool)
        ensures
            final(self).0 == if value {
                old(self).0 | PRG
            } else {
                old(self).0 & !PRG
            },
    {
        self.set(PRG, value)
    }

    /// Set the shift key.
    pub fn set_shift(&mut self, value: bool)
        ensures
            final(self).0 == if value {
                old(self).0 | SHIFT
            } else {
                old(self).0 & !SHIFT
            },
    {
        self.set(SHIFT, value)
    }

    /// Set the emoji (Space) key.
    pub fn set_emoji(&mut self, value: bool)
        ensures
            final(self).0 == if value {
                old(self).0 | EMOJI
            } else {
                old(self).0 & !EMOJI
            },
    {
        self.set(EMOJI, value)
    }

    /// Set the left thumb button key.
    pub fn set_ltb(&mut self, value: bool)
        ensures
            final(self).0 == if value {
                old(self).0 | LTB
            } else {
                old(self).0 & !LTB
            },
    {
        self.set(LTB, value)
    }

    /// Set the right thumb button key.
    pub fn set_rtb(&mut self, value: bool)
        ensures
            final(self).0 == if value {
                old(self).0 | RTB
            } else {
                old(self).0 & !RTB
            },
    {
        self.set(RTB, value)
    }

    /// Get composing.
    pub fn composing(&self) -> (r: bool)
        ensures
            r == (self.0 & COMPOSING != 0),
    {
        self.get(COMPOSING)
    }

    /// Get the graph (AltGr / Option) key.
    pub fn graph(&self) -> (r: bool)
        ensures
            r == (self.0 & GRAPH != 0),
    {
        self.get(GRAPH)
    }

    /// Get the application (Ctrl / Command) key.
    pub fn app(&self) -> (r: bool)
        ensures
            r == (self.0 & APP != 0),
    {
        self.get(APP)
    }

    /// Get the program (Alt / Control) key.
    pub fn prg(&self) -> (r: bool)
        ensures
            r == (self.0 & PRG != 0),
    {
        self.get(PRG)
    }

    /// Get the shift key.
    pub fn shift(&self) -> (r: bool)
        ensures
            r == (self.0 & SHIFT != 0),
    {
        self.get(SHIFT)
    }

    /// Get the emoji (Space) key.
    pub fn emoji(&self) -> (r: bool)
        ensures
            r == (self.0 & EMOJI != 0),
    {
        self.get(EMOJI)
    }

    /// Get the left thumb button key.
    pub fn ltb(&self) -> (r: bool)
        ensures
            r == (self.0 & LTB != 0),
    {
        self.get(LTB)
    }

    /// Get the right thumb button key.
    pub fn rtb(&self) -> (r: bool)
        ensures
            r == (self.0 & RTB != 0),
    {
        self.get(RTB)
    }
}

} // verus!

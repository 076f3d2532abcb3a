//! The key code space: 256 single-byte identifiers for physical or logical
//! keys.  Every byte is a valid key code, so conversion from a raw byte is
//! total and never panics.

use vstd::prelude::*;

verus! {

/// A key on a keyboard, identified by its single-byte code.
///
/// The code space is laid out as four levels of 64 keys each: ASCII keys,
/// function keys, system keys, and numpad keys.  The identity of each code is
/// fixed externally; this type only carries the byte.
#[derive(Clone, Copy, Debug, PartialEq, Eq, Structural)]
pub struct Key(pub u8);

impl Key {
    /// The byte code of this key.
    pub fn code(self) -> (r: u8)
        ensures
            r == self.0,
    {
        self.0
    }
}

impl From<u8> for Key {
    /// Total conversion from a raw byte: every byte names a key.
    fn from(other: u8) -> (r: Self) {
        Key(other)
    }
}

impl vstd::std_specs::convert::FromSpecImpl<u8> for Key {
    open spec fn obeys_from_spec() -> bool {
        true
    }

    open spec fn from_spec(other: u8) -> Self {
        Key(other)
    }
}

} // verus!

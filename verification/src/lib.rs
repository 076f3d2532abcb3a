//! Core of a keyboard-input library: turns raw key codes into logical typing
//! events, tracks modifier state, packs events into a fixed 4-byte wire frame,
//! and de-duplicates press/release transitions behind a bounded channel.
//!
//! Data flows from a raw key code through the expansion engine ([`press`],
//! [`release`]), which consults a [`MappingTable`] and updates a [`Mods`]
//! register, into [`Type`] events.  Events are packed by the codec
//! ([`encode`], [`decode`]) into 4-byte frames, carried over a bounded
//! channel by a [`Typer`], and pulled back out by a [`Keyboard`], which
//! drops duplicate press/release transitions.

pub mod codec;
pub mod key;
pub mod mods;
pub mod notify;
pub mod state;
pub mod table;

pub use codec::{decode, encode, DecodeError, Type, TypeInternal};
pub use key::Key;
pub use mods::Mods;
pub use notify::{Keyboard, PollNext, Typer};
pub use table::{press, release, MappingTable};

//! Keystroke chords: parsing of the textual chord grammar, generation of the
//! ordered match candidates a keybinding resolver tries, IME simulation, and
//! display formatting.

pub mod display;
pub mod grammar;
pub mod keystroke;
pub mod modifiers;
pub mod parse;
pub mod text;

pub use crate::keystroke::Keystroke;
pub use crate::modifiers::Modifiers;
pub use crate::parse::ParseError;

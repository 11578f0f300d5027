use vstd::prelude::*;

verus! {

/// The state of the modifier keys at some point in time.
///
/// Each flag is independent: no field implies another.
#[derive(Copy, Clone, Debug, PartialEq, Eq, Hash, Structural)]
pub struct Modifiers {
    /// The control key
    pub control: bool,
    /// The alt key, sometimes also known as the 'meta' key
    pub alt: bool,
    /// The shift key
    pub shift: bool,
    /// The command key on macOS, the windows key on Windows
    pub command: bool,
    /// The function key
    pub function: bool,
}

impl Modifiers {
    /// Returns true if any modifier key is pressed.
    pub fn modified(&self) -> (r: bool)
        ensures
            r == (self.control || self.alt || self.shift || self.command || self.function),
    {
        self.control || self.alt || self.shift || self.command || self.function
    }

    /// Modifiers with no flag set.
    pub fn none() -> (r: Modifiers)
        ensures
            r == (Modifiers {
                control: false,
                alt: false,
                shift: false,
                command: false,
                function: false,
            }),
    {
        Modifiers { control: false, alt: false, shift: false, command: false, function: false }
    }

    /// Modifiers with just command set.
    pub fn command() -> (r: Modifiers)
        ensures
            r == (Modifiers {
                control: false,
                alt: false,
                shift: false,
                command: true,
                function: false,
            }),
    {
        Modifiers { control: false, alt: false, shift: false, command: true, function: false }
    }

    /// Modifiers with just shift set.
    pub fn shift() -> (r: Modifiers)
        ensures
            r == (Modifiers {
                control: false,
                alt: false,
                shift: true,
                command: false,
                function: false,
            }),
    {
        Modifiers { control: false, alt: false, shift: true, command: false, function: false }
    }

    /// Modifiers with command and shift set.
    pub fn command_shift() -> (r: Modifiers)
        ensures
            r == (Modifiers {
                control: false,
                alt: false,
                shift: true,
                command: true,
                function: false,
            }),
    {
        Modifiers { control: false, alt: false, shift: true, command: true, function: false }
    }
}

impl Default for Modifiers {
    /// A default-constructed Modifiers has all flags false.
    fn default() -> (r: Modifiers)
        ensures
            r == (Modifiers {
                control: false,
                alt: false,
                shift: false,
                command: false,
                function: false,
            }),
    {
        Modifiers { control: false, alt: false, shift: false, command: false, function: false }
    }
}

} // verus!

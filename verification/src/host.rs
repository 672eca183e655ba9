//! The operating system the tray runs on. Behaviour that differs between systems takes
//! the host as an argument.

use vstd::prelude::*;

verus! {

#[derive(Debug, Clone, Copy, PartialEq, Eq, Structural)]
pub enum HostOs {
    Macos,
    Linux,
    Windows,
    /// Another Unix-like system (BSDs and the like).
    OtherUnix,
}

impl HostOs {
    pub open spec fn unix(self) -> bool {
        !(self is Windows)
    }

    pub fn is_unix(&self) -> (r: bool)
        ensures
            r == self.unix(),
    {
        !matches!(self, HostOs::Windows)
    }

    pub fn is_windows(&self) -> (r: bool)
        ensures
            r == (*self is Windows),
    {
        matches!(self, HostOs::Windows)
    }

    pub fn is_macos(&self) -> (r: bool)
        ensures
            r == (*self is Macos),
    {
        matches!(self, HostOs::Macos)
    }
}

} // verus!

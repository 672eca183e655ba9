//! How the event loop presents the app on each host.

use vstd::prelude::*;

use crate::host::HostOs;

verus! {

#[derive(Debug, Clone, Copy, PartialEq, Eq, Structural)]
pub enum Backend {
    /// A menu-bar agent: accessory activation, no default menu, no focus stealing.
    Macos,
    Default,
}

/// The event-loop presentation policy of the host.
#[derive(Debug, Clone, Copy, PartialEq, Eq, Structural)]
pub struct EventLoopHost {
    pub backend: Backend,
}

impl EventLoopHost {
    pub fn for_host(host: HostOs) -> (r: Self)
        ensures
            r.backend == (if host is Macos {
                Backend::Macos
            } else {
                Backend::Default
            }),
    {
        if host.is_macos() {
            EventLoopHost { backend: Backend::Macos }
        } else {
            EventLoopHost { backend: Backend::Default }
        }
    }

    /// Whether the app runs as a menu-bar agent (no Dock icon, no app menu).
    pub fn is_menu_bar_agent(&self) -> (r: bool)
        ensures
            r == (self.backend == Backend::Macos),
    {
        matches!(self.backend, Backend::Macos)
    }
}

} // verus!

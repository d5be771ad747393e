//! Lobby plugin configuration.
use vstd::prelude::*;

verus! {

/// Lobby plugin configuration: the member limit of lobbies created without one.
#[derive(Debug, PartialEq, Eq, Clone, Copy, Structural)]
pub struct LobbyPlugin {
    pub default_max_members: u32,
}

impl Default for LobbyPlugin {
    fn default() -> (p: Self)
        ensures
            p.default_max_members == 4,
    {
        LobbyPlugin { default_max_members: 4 }
    }
}

impl LobbyPlugin {
    /// The default configuration: four members per lobby.
    pub fn new() -> (p: Self)
        ensures
            p.default_max_members == 4,
    {
        LobbyPlugin::default()
    }

    /// Sets the member limit of lobbies created without one.
    pub fn default_max_members(self, n: u32) -> (p: Self)
        ensures
            p.default_max_members == n,
    {
        LobbyPlugin { default_max_members: n }
    }
}

} // verus!

//! The `share` subcommands.

use vstd::prelude::*;

verus! {

/// What the `share` command does with Tailscale sharing.
#[derive(Clone, Copy, Debug, PartialEq, Eq, Structural)]
pub enum ShareCommands {
    /// Enable sharing over Tailscale.
    On,
    /// Disable sharing (loopback only).
    Off,
    /// Show sharing state, mode, and the team endpoint.
    Status,
}

} // verus!

//! The settings that periodic activity reads.
use vstd::prelude::*;

verus! {

/// Settings of background activity.
#[derive(Clone, Copy, Debug, PartialEq, Eq, Structural)]
pub struct BackgroundSettings {
    pub heartbeat_enabled: bool,
    pub heartbeat_interval_seconds: u64,
    pub proactive_max_per_day: u32,
    pub proactive_cooldown_minutes: u32,
}

/// Settings of the hosted plugin gateway.
#[derive(Clone, Copy, Debug, PartialEq, Eq, Structural)]
pub struct HostedPluginSettings {
    /// Whether hosted tools take the place of the local todo list.
    pub replace_local_todos: bool,
}

/// The settings that periodic activity reads.
#[derive(Clone, Copy, Debug, PartialEq, Eq, Structural)]
pub struct Settings {
    pub background: BackgroundSettings,
    pub hosted_plugins: HostedPluginSettings,
}

} // verus!

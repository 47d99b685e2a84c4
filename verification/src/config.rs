//! The settings of the daemon.

use vstd::prelude::*;

verus! {

/// The settings of the daemon. There is one: the group whose members
/// administer it. Without it the feature is off.
#[derive(Debug, Clone, Copy, PartialEq, Eq, Structural)]
pub struct WhackConfig {
    pub admin_gid: Option<u32>,
}

impl Default for WhackConfig {
    /// The settings where nothing is configured: no administrative group.
    fn default() -> (config: Self)
        ensures
            config.admin_gid is None,
    {
        WhackConfig { admin_gid: None }
    }
}

} // verus!

//! The notifications and marker values the host reacts to. All of them are
//! styling hooks: the host mirrors them onto its scene nodes so the player
//! can see what is highlighted, locked or newly spawned. None of them feeds
//! back into the interaction logic.

use vstd::prelude::*;

verus! {

/// Marker for a scene node currently highlighted through a hovered
/// highlight link. The host should style the node so the highlight is
/// obvious, and undo the styling when the marker goes away.
#[derive(Clone, Copy, Debug, PartialEq, Eq, Structural)]
pub struct TooltipHighlighting;

/// Marker for a panel that will not be despawned by its dismiss timer or by
/// the pointer leaving it. The host should style the panel so it is obvious
/// the panel stays put until unlocked.
#[derive(Clone, Copy, Debug, PartialEq, Eq, Structural)]
pub struct TooltipLocked;

/// Notification that a panel has spawned, carrying its identifier so the
/// host can apply styling to the freshly created nodes.
#[derive(Clone, Copy, Debug, PartialEq, Eq, Structural)]
pub struct TooltipSpawned {
    pub entity: u64,
}

} // verus!

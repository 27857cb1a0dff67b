//! Edge-triggered transition detector: given the snapshots and classified
//! stick zones of two consecutive ticks, decides which logical inputs went
//! low-to-high or high-to-low.
//!
//! Three gating levels exist. `change_nos` watches a raw button alone (used
//! for global modifier keys). `change` additionally requires the secondary
//! layer selector (the right trigger) to match a chosen layer in each
//! snapshot, so the same button means different things per layer without
//! aliasing edges across a layer switch. `octant_change` further requires the
//! stick's classified zone to equal a target zone in each snapshot, which
//! makes "button while pointing north-east" a logical input of its own: a
//! zone change under a held button releases the old zone-bound action and
//! presses the new one.

use vstd::prelude::*;
use crate::state::{MyState, edge_of};
use crate::zone::OctantSection;

verus! {

/// Names one boolean input of a `MyState` snapshot.
#[derive(Debug, Copy, Clone, PartialEq, Eq, Structural)]
pub enum ButtonId {
    /// Face buttons (the right-hand quad).
    North,
    East,
    South,
    West,
    /// Directional pad (the left-hand quad).
    DpadUp,
    DpadRight,
    DpadDown,
    DpadLeft,
    /// Shoulders and triggers.
    L1,
    L2,
    R1,
    R2,
}

/// The value of one named boolean input in a snapshot.
pub open spec fn spec_button(s: MyState, b: ButtonId) -> bool {
    match b {
        ButtonId::North => s.buttons.r.n,
        ButtonId::East => s.buttons.r.e,
        ButtonId::South => s.buttons.r.s,
        ButtonId::West => s.buttons.r.w,
        ButtonId::DpadUp => s.buttons.l.n,
        ButtonId::DpadRight => s.buttons.l.e,
        ButtonId::DpadDown => s.buttons.l.s,
        ButtonId::DpadLeft => s.buttons.l.w,
        ButtonId::L1 => s.l1,
        ButtonId::L2 => s.l2,
        ButtonId::R1 => s.r1,
        ButtonId::R2 => s.r2,
    }
}

/// Reads one named boolean input from a snapshot.
pub fn button(s: &MyState, b: ButtonId) -> (r: bool)
    ensures
        r == spec_button(*s, b),
{
    match b {
        ButtonId::North => s.buttons.r.n,
        ButtonId::East => s.buttons.r.e,
        ButtonId::South => s.buttons.r.s,
        ButtonId::West => s.buttons.r.w,
        ButtonId::DpadUp => s.buttons.l.n,
        ButtonId::DpadRight => s.buttons.l.e,
        ButtonId::DpadDown => s.buttons.l.s,
        ButtonId::DpadLeft => s.buttons.l.w,
        ButtonId::L1 => s.l1,
        ButtonId::L2 => s.l2,
        ButtonId::R1 => s.r1,
        ButtonId::R2 => s.r2,
    }
}

/// The layer-gated value of a button in a snapshot: the button is held and
/// the secondary layer selector (the right trigger) matches the asked layer.
pub open spec fn layer_gate(s: MyState, b: ButtonId, secondary: bool) -> bool {
    spec_button(s, b) && secondary == s.r2
}

/// The zone-and-layer-gated value of a button in a snapshot: the button is
/// held, the snapshot's classified zone is exactly the target zone, and the
/// layer selector matches.
pub open spec fn zone_gate(
    s: MyState,
    z: Option<OctantSection>,
    b: ButtonId,
    octant: OctantSection,
    secondary: bool,
) -> bool {
    spec_button(s, b) && z == Some(octant) && secondary == s.r2
}

/// Two consecutive snapshots together with the classified zone of the
/// primary stick in each, as handed to the detector once per tick.
#[derive(Debug, Copy, Clone)]
pub struct TransitionState {
    pub prev: MyState,
    pub curr: MyState,
    pub prev_maybe_octant: Option<OctantSection>,
    pub maybe_octant: Option<OctantSection>,
}

impl TransitionState {
    /// The edge of a raw button, with no secondary-selector gating.
    pub fn change_nos(&self, b: ButtonId) -> (r: Option<bool>)
        ensures
            r == edge_of(spec_button(self.prev, b), spec_button(self.curr, b)),
    {
        crate::state::edge(button(&self.prev, b), button(&self.curr, b))
    }

    /// The edge of a button gated by the secondary layer selector.
    pub fn change(&self, b: ButtonId, secondary: bool) -> (r: Option<bool>)
        ensures
            r == edge_of(
                layer_gate(self.prev, b, secondary),
                layer_gate(self.curr, b, secondary),
            ),
    {
        let before = button(&self.prev, b) && secondary == self.prev.r2;
        let now = button(&self.curr, b) && secondary == self.curr.r2;
        crate::state::edge(before, now)
    }

    /// The edge of a button gated by both the stick's classified zone and the
    /// secondary layer selector.
    pub fn octant_change(&self, b: ButtonId, octant: OctantSection, secondary: bool) -> (r: Option<
        bool,
    >)
        ensures
            r == edge_of(
                zone_gate(self.prev, self.prev_maybe_octant, b, octant, secondary),
                zone_gate(self.curr, self.maybe_octant, b, octant, secondary),
            ),
    {
        let prev_zone_ok = match self.prev_maybe_octant {
            Some(o) => o == octant,
            None => false,
        };
        let zone_ok = match self.maybe_octant {
            Some(o) => o == octant,
            None => false,
        };
        let before = button(&self.prev, b) && prev_zone_ok && secondary == self.prev.r2;
        let now = button(&self.curr, b) && zone_ok && secondary == self.curr.r2;
        crate::state::edge(before, now)
    }
}

} // verus!

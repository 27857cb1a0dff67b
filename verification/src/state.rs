//! Device-state snapshots and the generic two-tick transition pair.
//!
//! A `MyState` is an immutable snapshot of every logical input of interest at
//! one sampling tick: two stick deflections, two four-button quads (the
//! directional pad on the left half, the face buttons on the right half) and
//! the four shoulder/trigger modifiers. A `Transition` holds the snapshots of
//! two consecutive ticks and answers which way a boolean predicate over them
//! changed.

use vstd::prelude::*;
use crate::zone::XY;

verus! {

/// A left/right pair of like values.
#[derive(Debug, Copy, Clone, PartialEq, Eq, Default, Structural)]
pub struct LR<T> {
    pub l: T,
    pub r: T,
}

/// One four-button quad: north, east, south, west.
#[derive(Debug, Copy, Clone, PartialEq, Eq, Default, Structural)]
pub struct Buttons {
    pub n: bool,
    pub e: bool,
    pub s: bool,
    pub w: bool,
}

/// The button of a quad at a clockwise index: north, east, south, west.
pub open spec fn button_at(b: Buttons, i: int) -> bool {
    if i == 0 {
        b.n
    } else if i == 1 {
        b.e
    } else if i == 2 {
        b.s
    } else {
        b.w
    }
}

impl Buttons {
    /// The button at a clockwise index: north, east, south, west.
    pub fn get(&self, i: usize) -> (r: bool)
        requires
            i < 4,
        ensures
            r == button_at(*self, i as int),
    {
        if i == 0 {
            self.n
        } else if i == 1 {
            self.e
        } else if i == 2 {
            self.s
        } else {
            self.w
        }
    }
}

/// A snapshot of all logical inputs at one sampling tick. `buttons.l` is the
/// directional pad, `buttons.r` the four face buttons; `l1`/`r1` are the
/// shoulder buttons and `l2`/`r2` the triggers.
#[derive(Debug, Copy, Clone, PartialEq, Eq, Default, Structural)]
pub struct MyState {
    pub sticks: LR<XY>,
    pub buttons: LR<Buttons>,
    pub l1: bool,
    pub l2: bool,
    pub r1: bool,
    pub r2: bool,
}

/// One stick paired with the button quad of the opposite half.
#[derive(Debug, Copy, Clone, PartialEq, Eq, Structural)]
pub struct HalfState {
    pub stick: XY,
    pub buttons: Buttons,
}

impl MyState {
    /// The cross-mapped interpretation of the same raw snapshot: sticks
    /// swapped and the two button quads swapped, modifiers untouched.
    pub fn invert(self) -> (r: Self)
        ensures
            r.sticks.l == self.sticks.r,
            r.sticks.r == self.sticks.l,
            r.buttons.l == self.buttons.r,
            r.buttons.r == self.buttons.l,
            r.l1 == self.l1 && r.l2 == self.l2 && r.r1 == self.r1 && r.r2 == self.r2,
    {
        MyState {
            sticks: LR { l: self.sticks.r, r: self.sticks.l },
            buttons: LR { l: self.buttons.r, r: self.buttons.l },
            ..self
        }
    }

    /// The primary pairing: left stick with the right-hand (face) buttons.
    pub fn get_primary_half(self) -> (r: HalfState)
        ensures
            r == (HalfState { stick: self.sticks.l, buttons: self.buttons.r }),
    {
        HalfState { stick: self.sticks.l, buttons: self.buttons.r }
    }

    /// The secondary pairing: right stick with the left-hand (pad) buttons.
    pub fn get_secondary_half(self) -> (r: HalfState)
        ensures
            r == (HalfState { stick: self.sticks.r, buttons: self.buttons.l }),
    {
        HalfState { stick: self.sticks.r, buttons: self.buttons.l }
    }
}

/// What one boolean input did between two consecutive ticks: `Some(true)` on
/// a rising edge, `Some(false)` on a falling edge, `None` on steady state.
pub open spec fn edge_of(before: bool, now: bool) -> Option<bool> {
    if before == now {
        None
    } else {
        Some(now)
    }
}

/// Decides `edge_of`.
pub fn edge(before: bool, now: bool) -> (r: Option<bool>)
    ensures
        r == edge_of(before, now),
{
    match (before, now) {
        (false, true) => Some(true),
        (true, false) => Some(false),
        (true, true) => None,
        (false, false) => None,
    }
}

/// Edge idempotence law: over three consecutive ticks on which a predicate
/// holds the same value at the last two, the later comparison never reports
/// an edge, and the earlier one reports an edge exactly when the value
/// actually changed.
pub proof fn lemma_edge_idempotent(v1: bool, v2: bool, v3: bool)
    requires
        v2 == v3,
    ensures
        edge_of(v2, v3) == None::<bool>,
        (edge_of(v1, v2) == None::<bool>) <==> v1 == v2,
{
}

/// The snapshots of two consecutive sampling ticks. The current value of
/// tick `n` becomes the previous value of tick `n + 1` through exactly one
/// `push_new` per tick.
#[derive(Debug, Copy, Clone, PartialEq, Eq, Default, Structural)]
pub struct Transition<T> {
    pub prev: T,
    pub curr: T,
}

impl<T> Transition<T> {
    /// Advances one tick: the old current snapshot becomes the previous one.
    pub fn push_new(&mut self, new: T)
        ensures
            final (self).prev == old(self).curr,
            final (self).curr == new,
    {
        core::mem::swap(&mut self.prev, &mut self.curr);
        self.curr = new;
    }

    /// The edge of a boolean predicate between the two snapshots.
    pub fn change<F: Fn(&T) -> bool>(&self, f: F) -> (r: Option<bool>)
        requires
            f.requires((&self.prev,)),
            f.requires((&self.curr,)),
        ensures
            exists|before: bool, now: bool|
                f.ensures((&self.prev,), before) && f.ensures((&self.curr,), now) && r == edge_of(
                    before,
                    now,
                ),
    {
        let before = f(&self.prev);
        let now = f(&self.curr);
        edge(before, now)
    }

    /// Applies one function to both snapshots.
    pub fn map<U, F: Fn(T) -> U>(self, f: F) -> (r: Transition<U>)
        requires
            f.requires((self.prev,)),
            f.requires((self.curr,)),
        ensures
            f.ensures((self.prev,), r.prev),
            f.ensures((self.curr,), r.curr),
    {
        Transition { prev: f(self.prev), curr: f(self.curr) }
    }

    /// Borrows both snapshots.
    pub fn as_ref(&self) -> (r: Transition<&T>)
        ensures
            r.prev == &self.prev,
            r.curr == &self.curr,
    {
        Transition { prev: &self.prev, curr: &self.curr }
    }
}

impl Transition<MyState> {
    /// Whether anything at all changed between the two snapshots.
    pub fn changed(&self) -> (r: bool)
        ensures
            r == (self.prev != self.curr),
    {
        self.prev != self.curr
    }
}

} // verus!

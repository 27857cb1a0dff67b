//! The per-tick engine step: runs the transition detector over every logical
//! input, resolves each edge through the action table, and collects the
//! tick's (action, pressed) batch in a fixed order — global modifiers first,
//! then the directional pad per layer, then the zone-gated face buttons per
//! layer and zone.
//!
//! The directional pad deliberately bypasses zone gating: it is layer-gated
//! only. Zone gating applies to the four face buttons alone.

use vstd::prelude::*;
use crate::actions::{Action, ActionSetView, ActionTables, ActionView, zone_index, zone_valid};
use crate::detect::{ButtonId, TransitionState, layer_gate, zone_gate};
use crate::state::edge_of;
use crate::zone::OctantSection;

verus! {

/// The batch entry an edge produces: none on steady state, one (action,
/// pressed) pair on an edge.
pub open spec fn opt_event(e: Option<bool>, a: ActionView) -> Seq<(ActionView, bool)> {
    match e {
        Some(p) => seq![(a, p)],
        None => Seq::empty(),
    }
}

/// The mathematical value of a batch: each action replaced by its view.
pub open spec fn events_view(s: Seq<(Action, bool)>) -> Seq<(ActionView, bool)> {
    s.map_values(|e: (Action, bool)| (e.0@, e.1))
}

/// Appending one event to a batch appends its view.
proof fn lemma_events_view_push(s: Seq<(Action, bool)>, e: (Action, bool))
    ensures
        events_view(s.push(e)) == events_view(s).push((e.0@, e.1)),
{
    assert(events_view(s.push(e)) =~= events_view(s).push((e.0@, e.1)));
}

/// Some event of the batch is a press.
pub open spec fn contains_press(s: Seq<(ActionView, bool)>) -> bool {
    exists|i: int| 0 <= i < s.len() && s[i].1
}

/// Whether a concatenation holds a press splits over its parts.
proof fn lemma_contains_press_concat(a: Seq<(ActionView, bool)>, b: Seq<(ActionView, bool)>)
    ensures
        contains_press(a + b) == (contains_press(a) || contains_press(b)),
{
    if contains_press(a + b) {
        let i = choose|i: int| 0 <= i < (a + b).len() && (a + b)[i].1;
        if i < a.len() {
            assert(a[i].1);
        } else {
            assert(b[i - a.len()].1);
        }
    }
    if contains_press(a) {
        let i = choose|i: int| 0 <= i < a.len() && a[i].1;
        assert((a + b)[i].1);
    }
    if contains_press(b) {
        let i = choose|i: int| 0 <= i < b.len() && b[i].1;
        assert((a + b)[a.len() + i].1);
    }
}

/// The edge of a layer-gated button between the two snapshots.
pub open spec fn layer_edge(x: TransitionState, b: ButtonId, secondary: bool) -> Option<bool> {
    edge_of(layer_gate(x.prev, b, secondary), layer_gate(x.curr, b, secondary))
}

/// The edge of a zone-and-layer-gated button between the two snapshots.
pub open spec fn octant_edge(
    x: TransitionState,
    b: ButtonId,
    octant: OctantSection,
    secondary: bool,
) -> Option<bool> {
    edge_of(
        zone_gate(x.prev, x.prev_maybe_octant, b, octant, secondary),
        zone_gate(x.curr, x.maybe_octant, b, octant, secondary),
    )
}

/// The tick's global-modifier events: the left trigger drives shift, the
/// left shoulder control, the right shoulder alt, each ungated.
pub open spec fn modifier_events(x: TransitionState, t: ActionTables) -> Seq<(ActionView, bool)> {
    opt_event(edge_of(x.prev.l2, x.curr.l2), t.shift@) + opt_event(
        edge_of(x.prev.l1, x.curr.l1),
        t.ctrl@,
    ) + opt_event(edge_of(x.prev.r1, x.curr.r1), t.alt@)
}

/// The tick's directional-pad events for one layer, north, east, south, west.
pub open spec fn dpad_events(x: TransitionState, t: ActionTables, secondary: bool) -> Seq<
    (ActionView, bool),
> {
    let set = if secondary {
        t.dpad_secondary@
    } else {
        t.dpad_primary@
    };
    opt_event(layer_edge(x, ButtonId::DpadUp, secondary), set.n) + opt_event(
        layer_edge(x, ButtonId::DpadRight, secondary),
        set.e,
    ) + opt_event(layer_edge(x, ButtonId::DpadDown, secondary), set.s) + opt_event(
        layer_edge(x, ButtonId::DpadLeft, secondary),
        set.w,
    )
}

/// One zone's action set in one layer.
pub open spec fn set_view_for(t: ActionTables, octant: OctantSection, secondary: bool) -> ActionSetView {
    if secondary {
        t.secondary@[zone_index(octant)]@
    } else {
        t.primary@[zone_index(octant)]@
    }
}

/// The tick's face-button events for one zone and layer.
pub open spec fn face_set_events(
    x: TransitionState,
    t: ActionTables,
    octant: OctantSection,
    secondary: bool,
) -> Seq<(ActionView, bool)> {
    let set = set_view_for(t, octant, secondary);
    opt_event(octant_edge(x, ButtonId::North, octant, secondary), set.n) + opt_event(
        octant_edge(x, ButtonId::East, octant, secondary),
        set.e,
    ) + opt_event(octant_edge(x, ButtonId::South, octant, secondary), set.s) + opt_event(
        octant_edge(x, ButtonId::West, octant, secondary),
        set.w,
    )
}

/// The zone scanned at position `i` of the face pass: the center first, then
/// the octants in order.
pub open spec fn octant_at(i: int) -> OctantSection {
    if i == 0 {
        OctantSection::Center
    } else {
        OctantSection::Octant((i - 1) as u8)
    }
}

/// The tick's face-button events for one layer, from scan position `i` on.
pub open spec fn face_events_from(x: TransitionState, t: ActionTables, secondary: bool, i: int) -> Seq<
    (ActionView, bool),
>
    decreases 9 - i,
{
    if i < 0 || i >= 9 {
        Seq::empty()
    } else {
        face_set_events(x, t, octant_at(i), secondary) + face_events_from(x, t, secondary, i + 1)
    }
}

/// The whole batch one tick produces, in emission order: modifiers, then the
/// directional pad in both layers, then the face buttons in both layers.
pub open spec fn tick_events(x: TransitionState, t: ActionTables) -> Seq<(ActionView, bool)> {
    modifier_events(x, t) + dpad_events(x, t, false) + dpad_events(x, t, true) + face_events_from(
        x,
        t,
        false,
        0,
    ) + face_events_from(x, t, true, 0)
}

/// Everything of the batch past the global modifiers: the events that count
/// as the user having acted.
pub open spec fn action_events(x: TransitionState, t: ActionTables) -> Seq<(ActionView, bool)> {
    dpad_events(x, t, false) + dpad_events(x, t, true) + face_events_from(x, t, false, 0)
        + face_events_from(x, t, true, 0)
}

/// The zone scanned at position `i`.
fn octant_at_exec(i: usize) -> (r: OctantSection)
    requires
        i < 9,
    ensures
        r == octant_at(i as int),
        zone_valid(r),
{
    if i == 0 {
        OctantSection::Center
    } else {
        OctantSection::Octant((i - 1) as u8)
    }
}

/// Appends one edge's event, if any; reports whether it was a press.
fn push_opt(queue: &mut Vec<(Action, bool)>, e: Option<bool>, a: &Action) -> (did: bool)
    ensures
        events_view(final (queue)@) == events_view(old(queue)@) + opt_event(e, a@),
        did == contains_press(opt_event(e, a@)),
{
    let ghost before = queue@;
    match e {
        Some(p) => {
            queue.push((a.clone(), p));
            proof {
                lemma_events_view_push(before, (final (queue)@)[final (queue)@.len() - 1]);
                assert(events_view(queue@) =~= events_view(before) + opt_event(e, a@));
                if p {
                    assert(opt_event(e, a@)[0].1);
                }
            }
            p
        },
        None => {
            proof {
                assert(events_view(queue@) =~= events_view(before) + opt_event(e, a@));
            }
            false
        },
    }
}

/// Appends the directional-pad events of one layer.
fn push_dpad(queue: &mut Vec<(Action, bool)>, x: &TransitionState, t: &ActionTables, secondary: bool) -> (did: bool)
    ensures
        events_view(final (queue)@) == events_view(old(queue)@) + dpad_events(*x, *t, secondary),
        did == contains_press(dpad_events(*x, *t, secondary)),
{
    let set = if secondary {
        &t.dpad_secondary
    } else {
        &t.dpad_primary
    };
    let d1 = push_opt(queue, x.change(ButtonId::DpadUp, secondary), &set.n);
    let d2 = push_opt(queue, x.change(ButtonId::DpadRight, secondary), &set.e);
    let d3 = push_opt(queue, x.change(ButtonId::DpadDown, secondary), &set.s);
    let d4 = push_opt(queue, x.change(ButtonId::DpadLeft, secondary), &set.w);
    proof {
        let e1 = opt_event(layer_edge(*x, ButtonId::DpadUp, secondary), set.n@);
        let e2 = opt_event(layer_edge(*x, ButtonId::DpadRight, secondary), set.e@);
        let e3 = opt_event(layer_edge(*x, ButtonId::DpadDown, secondary), set.s@);
        let e4 = opt_event(layer_edge(*x, ButtonId::DpadLeft, secondary), set.w@);
        assert(events_view(queue@) =~= events_view(old(queue)@) + dpad_events(*x, *t, secondary));
        lemma_contains_press_concat(e1, e2);
        lemma_contains_press_concat(e1 + e2, e3);
        lemma_contains_press_concat(e1 + e2 + e3, e4);
        assert(dpad_events(*x, *t, secondary) == e1 + e2 + e3 + e4);
    }
    d1 || d2 || d3 || d4
}

/// Appends the face-button events of one zone in one layer.
fn push_face_set(
    queue: &mut Vec<(Action, bool)>,
    x: &TransitionState,
    t: &ActionTables,
    octant: OctantSection,
    secondary: bool,
) -> (did: bool)
    requires
        t.wf(),
        zone_valid(octant),
    ensures
        events_view(final (queue)@) == events_view(old(queue)@) + face_set_events(
            *x,
            *t,
            octant,
            secondary,
        ),
        did == contains_press(face_set_events(*x, *t, octant, secondary)),
{
    let set = crate::actions::actionset_for(t, octant, secondary);
    let d1 = push_opt(queue, x.octant_change(ButtonId::North, octant, secondary), &set.n);
    let d2 = push_opt(queue, x.octant_change(ButtonId::East, octant, secondary), &set.e);
    let d3 = push_opt(queue, x.octant_change(ButtonId::South, octant, secondary), &set.s);
    let d4 = push_opt(queue, x.octant_change(ButtonId::West, octant, secondary), &set.w);
    proof {
        let sv = set_view_for(*t, octant, secondary);
        let e1 = opt_event(octant_edge(*x, ButtonId::North, octant, secondary), sv.n);
        let e2 = opt_event(octant_edge(*x, ButtonId::East, octant, secondary), sv.e);
        let e3 = opt_event(octant_edge(*x, ButtonId::South, octant, secondary), sv.s);
        let e4 = opt_event(octant_edge(*x, ButtonId::West, octant, secondary), sv.w);
        assert(events_view(queue@) =~= events_view(old(queue)@) + face_set_events(
            *x,
            *t,
            octant,
            secondary,
        ));
        lemma_contains_press_concat(e1, e2);
        lemma_contains_press_concat(e1 + e2, e3);
        lemma_contains_press_concat(e1 + e2 + e3, e4);
        assert(face_set_events(*x, *t, octant, secondary) == e1 + e2 + e3 + e4);
    }
    d1 || d2 || d3 || d4
}

/// Appends the face-button events of one whole layer, center first, then
/// every octant in order.
fn push_face_layer(
    queue: &mut Vec<(Action, bool)>,
    x: &TransitionState,
    t: &ActionTables,
    secondary: bool,
) -> (did: bool)
    requires
        t.wf(),
    ensures
        events_view(final (queue)@) == events_view(old(queue)@) + face_events_from(
            *x,
            *t,
            secondary,
            0,
        ),
        did == contains_press(face_events_from(*x, *t, secondary, 0)),
{
    let mut did = false;
    let mut i: usize = 0;
    let ghost start = queue@;
    let ghost acc = Seq::<(ActionView, bool)>::empty();
    proof {
        assert(events_view(queue@) =~= events_view(start) + acc);
    }
    let mut acc = Ghost(acc);
    while i < 9
        invariant
            t.wf(),
            i <= 9,
            events_view(queue@) == events_view(start) + acc@,
            acc@ + face_events_from(*x, *t, secondary, i as int) == face_events_from(
                *x,
                *t,
                secondary,
                0,
            ),
            did == contains_press(acc@),
        decreases 9 - i,
    {
        let octant = octant_at_exec(i);
        let d = push_face_set(queue, x, t, octant, secondary);
        proof {
            let part = face_set_events(*x, *t, octant, secondary);
            lemma_contains_press_concat(acc@, part);
            assert((acc@ + part) + face_events_from(*x, *t, secondary, i + 1) =~= acc@ + (part
                + face_events_from(*x, *t, secondary, i + 1)));
            assert(part + face_events_from(*x, *t, secondary, i + 1) == face_events_from(
                *x,
                *t,
                secondary,
                i as int,
            ));
            acc@ = acc@ + part;
        }
        did = did || d;
        i = i + 1;
    }
    proof {
        assert(face_events_from(*x, *t, secondary, 9) =~= Seq::<(ActionView, bool)>::empty());
        assert(acc@ + face_events_from(*x, *t, secondary, 9) =~= acc@);
    }
    did
}

/// Runs one whole tick: every detector edge resolved through the table, in
/// emission order, together with whether any non-modifier action was
/// pressed this tick.
pub fn tick_actions(x: &TransitionState, t: &ActionTables) -> (r: (Vec<(Action, bool)>, bool))
    requires
        t.wf(),
    ensures
        events_view(r.0@) == tick_events(*x, *t),
        r.1 == contains_press(action_events(*x, *t)),
{
    let mut queue: Vec<(Action, bool)> = Vec::new();
    proof {
        assert(events_view(queue@) =~= Seq::<(ActionView, bool)>::empty());
    }
    push_opt(&mut queue, x.change_nos(ButtonId::L2), &t.shift);
    push_opt(&mut queue, x.change_nos(ButtonId::L1), &t.ctrl);
    push_opt(&mut queue, x.change_nos(ButtonId::R1), &t.alt);
    proof {
        assert(events_view(queue@) =~= modifier_events(*x, *t));
    }
    let d1 = push_dpad(&mut queue, x, t, false);
    let d2 = push_dpad(&mut queue, x, t, true);
    let d3 = push_face_layer(&mut queue, x, t, false);
    let d4 = push_face_layer(&mut queue, x, t, true);
    let did = d1 || d2 || d3 || d4;
    proof {
        let m = modifier_events(*x, *t);
        let p1 = dpad_events(*x, *t, false);
        let p2 = dpad_events(*x, *t, true);
        let p3 = face_events_from(*x, *t, false, 0);
        let p4 = face_events_from(*x, *t, true, 0);
        assert(events_view(queue@) =~= tick_events(*x, *t));
        lemma_contains_press_concat(p1, p2);
        lemma_contains_press_concat(p1 + p2, p3);
        lemma_contains_press_concat(p1 + p2 + p3, p4);
        assert(action_events(*x, *t) == p1 + p2 + p3 + p4);
    }
    (queue, did)
}

/// The two strengths of haptic feedback.
#[derive(Debug, Copy, Clone, PartialEq, Eq, Structural)]
pub enum Buzz {
    Big,
    Small,
}

impl Buzz {
    /// The vibration power of each strength.
    pub fn power(self) -> (r: u16)
        ensures
            r == match self {
                Buzz::Big => 30000u16,
                Buzz::Small => 15000u16,
            },
    {
        match self {
            Buzz::Big => 30000,
            Buzz::Small => 15000,
        }
    }
}

} // verus!

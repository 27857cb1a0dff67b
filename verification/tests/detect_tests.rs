use padtype::detect::{ButtonId, TransitionState};
use padtype::state::{Buttons, HalfState, LR, MyState, Transition, edge};
use padtype::zone::{OctantSection, XY};

fn quiet() -> MyState {
    MyState::default()
}

fn with_north(on: bool) -> MyState {
    let mut s = quiet();
    s.buttons.r.n = on;
    s
}

#[test]
fn edge_semantics() {
    assert_eq!(edge(false, true), Some(true));
    assert_eq!(edge(true, false), Some(false));
    assert_eq!(edge(true, true), None);
    assert_eq!(edge(false, false), None);
}

#[test]
fn edge_idempotence_over_three_ticks() {
    // The predicate reads false, then true, true, true: only the first
    // comparison reports an edge; the later ticks always yield None.
    let samples = [false, true, true, true];
    let mut reported = Vec::new();
    for w in samples.windows(2) {
        reported.push(edge(w[0], w[1]));
    }
    assert_eq!(reported, vec![Some(true), None, None]);
}

#[test]
fn zone_change_on_matching_octant() {
    // North goes false to true while the zone is Octant(2) in both ticks.
    let xmsn = TransitionState {
        prev: with_north(false),
        curr: with_north(true),
        prev_maybe_octant: Some(OctantSection::Octant(2)),
        maybe_octant: Some(OctantSection::Octant(2)),
    };
    assert_eq!(xmsn.octant_change(ButtonId::North, OctantSection::Octant(2), false), Some(true));
    assert_eq!(xmsn.octant_change(ButtonId::North, OctantSection::Octant(3), false), None);
}

#[test]
fn zone_change_releases_old_zone_on_zone_switch() {
    // The button stays held while the zone moves from octant 1 to octant 2:
    // the old zone's input falls, the new zone's input rises.
    let xmsn = TransitionState {
        prev: with_north(true),
        curr: with_north(true),
        prev_maybe_octant: Some(OctantSection::Octant(1)),
        maybe_octant: Some(OctantSection::Octant(2)),
    };
    assert_eq!(xmsn.octant_change(ButtonId::North, OctantSection::Octant(1), false), Some(false));
    assert_eq!(xmsn.octant_change(ButtonId::North, OctantSection::Octant(2), false), Some(true));
}

#[test]
fn layer_gate_blocks_other_layer() {
    let mut curr = with_north(true);
    curr.r2 = true; // secondary layer selector held
    let xmsn = TransitionState {
        prev: with_north(false),
        curr,
        prev_maybe_octant: None,
        maybe_octant: None,
    };
    assert_eq!(xmsn.change(ButtonId::North, true), Some(true));
    assert_eq!(xmsn.change(ButtonId::North, false), None);
}

#[test]
fn change_nos_ignores_layers() {
    let mut curr = quiet();
    curr.l2 = true;
    curr.r2 = true;
    let xmsn = TransitionState {
        prev: quiet(),
        curr,
        prev_maybe_octant: None,
        maybe_octant: None,
    };
    assert_eq!(xmsn.change_nos(ButtonId::L2), Some(true));
    assert_eq!(xmsn.change_nos(ButtonId::North), None);
}

#[test]
fn transition_push_new_shifts() {
    let mut t: Transition<u8> = Transition { prev: 1, curr: 2 };
    t.push_new(3);
    assert_eq!(t.prev, 2);
    assert_eq!(t.curr, 3);
}

#[test]
fn transition_change_and_changed() {
    let t = Transition { prev: with_north(false), curr: with_north(true) };
    assert_eq!(t.change(|s: &MyState| s.buttons.r.n), Some(true));
    assert_eq!(t.change(|s: &MyState| s.l1), None);
    assert!(t.changed());
    let steady = Transition { prev: quiet(), curr: quiet() };
    assert!(!steady.changed());
}

#[test]
fn transition_map_and_as_ref() {
    let t = Transition { prev: 3u8, curr: 7u8 };
    let doubled = t.map(|v: u8| v * 2);
    assert_eq!(doubled.prev, 6);
    assert_eq!(doubled.curr, 14);
    let r = t.as_ref();
    assert_eq!(*r.prev, 3);
    assert_eq!(*r.curr, 7);
}

#[test]
fn buttons_get_in_clockwise_order() {
    let b = Buttons { n: true, e: false, s: true, w: false };
    assert!(b.get(0));
    assert!(!b.get(1));
    assert!(b.get(2));
    assert!(!b.get(3));
}

#[test]
fn halves_and_invert() {
    let s = MyState {
        sticks: LR { l: XY { x: 1, y: 2 }, r: XY { x: 3, y: 4 } },
        buttons: LR {
            l: Buttons { n: true, e: false, s: false, w: false },
            r: Buttons { n: false, e: true, s: false, w: false },
        },
        l1: true,
        l2: false,
        r1: false,
        r2: true,
    };
    let primary = s.get_primary_half();
    assert_eq!(primary, HalfState { stick: s.sticks.l, buttons: s.buttons.r });
    let secondary = s.get_secondary_half();
    assert_eq!(secondary, HalfState { stick: s.sticks.r, buttons: s.buttons.l });
    let inv = s.invert();
    assert_eq!(inv.sticks.l, s.sticks.r);
    assert_eq!(inv.sticks.r, s.sticks.l);
    assert_eq!(inv.buttons.l, s.buttons.r);
    assert_eq!(inv.buttons.r, s.buttons.l);
    assert_eq!(inv.l1, s.l1);
    assert_eq!(inv.r2, s.r2);
}

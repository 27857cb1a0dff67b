use padtype::actions::{Action, build_action_tables};
use padtype::detect::TransitionState;
use padtype::engine::{Buzz, tick_actions};
use padtype::keysym::{XK_CONTROL_L, XK_SHIFT_L};
use padtype::state::MyState;
use padtype::zone::OctantSection;

fn quiet() -> MyState {
    MyState::default()
}

#[test]
fn north_press_in_octant_zero_types_a() {
    let tables = build_action_tables();
    let mut curr = quiet();
    curr.buttons.r.n = true;
    let xmsn = TransitionState {
        prev: quiet(),
        curr,
        prev_maybe_octant: Some(OctantSection::Octant(0)),
        maybe_octant: Some(OctantSection::Octant(0)),
    };
    let (queue, did) = tick_actions(&xmsn, &tables);
    assert_eq!(queue, vec![(Action::Unicode("a".to_string()), true)]);
    assert!(did);
}

#[test]
fn north_press_in_octant_two_types_i() {
    let tables = build_action_tables();
    let mut curr = quiet();
    curr.buttons.r.n = true;
    let xmsn = TransitionState {
        prev: quiet(),
        curr,
        prev_maybe_octant: Some(OctantSection::Octant(2)),
        maybe_octant: Some(OctantSection::Octant(2)),
    };
    let (queue, did) = tick_actions(&xmsn, &tables);
    assert_eq!(queue, vec![(Action::Unicode("i".to_string()), true)]);
    assert!(did);
}

#[test]
fn modifier_edge_does_not_count_as_action() {
    let tables = build_action_tables();
    let mut curr = quiet();
    curr.l2 = true;
    let xmsn = TransitionState {
        prev: quiet(),
        curr,
        prev_maybe_octant: Some(OctantSection::Center),
        maybe_octant: Some(OctantSection::Center),
    };
    let (queue, did) = tick_actions(&xmsn, &tables);
    assert_eq!(queue, vec![(Action::Key(XK_SHIFT_L), true)]);
    assert!(!did);
}

#[test]
fn zone_switch_under_held_button_releases_then_presses() {
    let tables = build_action_tables();
    let mut held = quiet();
    held.buttons.r.n = true;
    let xmsn = TransitionState {
        prev: held,
        curr: held,
        prev_maybe_octant: Some(OctantSection::Octant(0)),
        maybe_octant: Some(OctantSection::Octant(1)),
    };
    let (queue, did) = tick_actions(&xmsn, &tables);
    assert_eq!(
        queue,
        vec![
            (Action::Unicode("a".to_string()), false),
            (Action::Unicode("e".to_string()), true),
        ]
    );
    assert!(did);
}

#[test]
fn steady_state_emits_nothing() {
    let tables = build_action_tables();
    let mut held = quiet();
    held.buttons.r.n = true;
    held.l1 = true;
    let xmsn = TransitionState {
        prev: held,
        curr: held,
        prev_maybe_octant: Some(OctantSection::Octant(4)),
        maybe_octant: Some(OctantSection::Octant(4)),
    };
    let (queue, did) = tick_actions(&xmsn, &tables);
    assert!(queue.is_empty());
    assert!(!did);
}

#[test]
fn dpad_bypasses_zone_gating() {
    let tables = build_action_tables();
    let mut curr = quiet();
    curr.buttons.l.n = true;
    // No zone at all (guard band): the dpad still fires.
    let xmsn = TransitionState {
        prev: quiet(),
        curr,
        prev_maybe_octant: None,
        maybe_octant: None,
    };
    let (queue, did) = tick_actions(&xmsn, &tables);
    assert_eq!(queue, vec![(tables.dpad_primary.n.clone(), true)]);
    assert!(did);
}

#[test]
fn modifier_release_comes_with_layered_press() {
    let tables = build_action_tables();
    let mut prev = quiet();
    prev.l1 = true;
    let mut curr = quiet();
    curr.buttons.r.n = true;
    let xmsn = TransitionState {
        prev,
        curr,
        prev_maybe_octant: Some(OctantSection::Center),
        maybe_octant: Some(OctantSection::Center),
    };
    let (queue, did) = tick_actions(&xmsn, &tables);
    assert_eq!(queue.len(), 2);
    assert_eq!(queue[0], (Action::Key(XK_CONTROL_L), false));
    assert_eq!(queue[1].1, true);
    assert!(did);
}

#[test]
fn buzz_power_levels() {
    assert_eq!(Buzz::Big.power(), 30000);
    assert_eq!(Buzz::Small.power(), 15000);
}

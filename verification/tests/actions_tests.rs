use padtype::actions::{Action, ActionTables, actionset_for, build_action_tables, str_to_actionsets};
use padtype::keysym::{XK_BACKSPACE, XK_CONTROL_L, XK_DELETE, XK_END, XK_F1, XK_PAGE_UP, XK_RETURN,
    XK_SHIFT_L, XK_TAB, XK_UP};
use padtype::zone::OctantSection;

fn unicode(s: &str) -> Action {
    Action::Unicode(s.to_string())
}

#[test]
fn chunks_of_four_become_sets() {
    let sets = str_to_actionsets("abcdefgh");
    assert_eq!(sets.len(), 2);
    assert_eq!(sets[0].n, unicode("a"));
    assert_eq!(sets[0].e, unicode("b"));
    assert_eq!(sets[0].s, unicode("c"));
    assert_eq!(sets[0].w, unicode("d"));
    assert_eq!(sets[1].n, unicode("e"));
    assert_eq!(sets[1].w, unicode("h"));
}

#[test]
fn trailing_partial_chunk_is_dropped() {
    let sets = str_to_actionsets("abcdef");
    assert_eq!(sets.len(), 1);
    let none = str_to_actionsets("xyz");
    assert_eq!(none.len(), 0);
}

fn tables() -> ActionTables {
    build_action_tables()
}

#[test]
fn primary_layer_writes_the_alphabet() {
    let t = tables();
    assert_eq!(t.primary.len(), 9);
    assert_eq!(t.primary[0].n, unicode("a"));
    assert_eq!(t.primary[0].e, unicode("b"));
    assert_eq!(t.primary[2].n, unicode("i"));
    assert_eq!(t.primary[7].w, unicode("'"));
    assert_eq!(t.primary[8].n, Action::Key(XK_TAB));
    assert_eq!(t.primary[8].e, Action::Key(0x20));
    assert_eq!(t.primary[8].s, Action::Key(XK_RETURN));
    assert_eq!(t.primary[8].w, Action::Key(XK_BACKSPACE));
}

#[test]
fn secondary_layer_writes_digits_and_keys() {
    let t = tables();
    assert_eq!(t.secondary.len(), 9);
    assert_eq!(t.secondary[0].n, unicode("1"));
    assert_eq!(t.secondary[3].w, unicode("\u{2122}"));
    assert_eq!(t.secondary[5].n, Action::Key(XK_F1));
    assert_eq!(t.secondary[8].n, Action::Combo(vec![XK_CONTROL_L, 0x78]));
    assert_eq!(t.secondary[8].e, Action::Combo(vec![XK_CONTROL_L, 0x63]));
    assert_eq!(t.secondary[8].s, Action::Combo(vec![XK_CONTROL_L, 0x76]));
    assert_eq!(t.secondary[8].w, Action::Key(XK_DELETE));
}

#[test]
fn dpad_and_modifiers() {
    let t = tables();
    assert_eq!(t.dpad_primary.n, Action::Key(XK_UP));
    assert_eq!(t.dpad_secondary.n, Action::Key(XK_PAGE_UP));
    assert_eq!(t.dpad_secondary.e, Action::Key(XK_END));
    assert_eq!(t.shift, Action::Key(XK_SHIFT_L));
}

#[test]
fn lookup_by_zone_and_layer() {
    let t = tables();
    let center = actionset_for(&t, OctantSection::Center, false);
    assert_eq!(center.n, Action::Key(XK_TAB));
    let oct0 = actionset_for(&t, OctantSection::Octant(0), false);
    assert_eq!(oct0.n, unicode("a"));
    let oct0_second = actionset_for(&t, OctantSection::Octant(0), true);
    assert_eq!(oct0_second.n, unicode("1"));
}

#[test]
fn action_clone_carries_the_value() {
    let a = Action::Unicode("hi".to_string());
    assert_eq!(a.clone(), a);
    let c = Action::Combo(vec![1, 2, 3]);
    assert_eq!(c.clone(), c);
}

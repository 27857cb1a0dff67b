use padtype::cache::{chord_events, ButtonEvent, CacheInitError, KeyEvent, KeyStuffingContext,
    Mapping, MotionEvent, ResolveOutcome, UNUSED_KEYSYM};
use padtype::keysym::{XK_BACKSPACE, XK_RETURN, XK_TAB, char_to_keysym, is_latin1};

fn mod_map() -> Vec<u8> {
    // one key code per modifier bit: shift is 50, bit 2 is 64
    vec![50, 37, 64, 0, 0, 0, 0, 0]
}

/// min key code 8; key codes 8..13 carry: (a, A), (backspace, -), two empty
/// slots, and (b, B).
fn host_keysyms() -> Vec<u32> {
    vec![
        0x61, 0x41, // keycode 8
        XK_BACKSPACE, 0, // keycode 9
        0, 0, // keycode 10: free
        0, 0, // keycode 11: free
        0x62, 0x42, // keycode 12
    ]
}

fn cache() -> KeyStuffingContext {
    KeyStuffingContext::new(8, 2, &host_keysyms(), mod_map()).unwrap()
}

#[test]
fn static_mappings_prefer_lower_modifiers() {
    let c = cache();
    assert_eq!(c.get_mapping(0x61), Some(Mapping { keycode: 8, modifiers: 0, keysym: 0x61 }));
    assert_eq!(c.get_mapping(0x41), Some(Mapping { keycode: 8, modifiers: 1, keysym: 0x41 }));
    assert_eq!(c.get_mapping(XK_BACKSPACE), Some(Mapping { keycode: 9, modifiers: 0, keysym: XK_BACKSPACE }));
    assert_eq!(c.get_mapping(0x999), None);
}

#[test]
fn plain_occurrence_beats_earlier_shifted_one() {
    // 0x41 appears shifted on key code 8 and plain on key code 9: the plain
    // binding must win even though the shifted one is discovered first.
    let keysyms = vec![
        0x61, 0x41, // keycode 8
        0x41, 0, // keycode 9: 0x41 unshifted
        XK_BACKSPACE, 0, // keycode 10
    ];
    let c = KeyStuffingContext::new(8, 2, &keysyms, mod_map()).unwrap();
    assert_eq!(c.get_mapping(0x41), Some(Mapping { keycode: 9, modifiers: 0, keysym: 0x41 }));
}

#[test]
fn dynamic_rebinds_evict_oldest_first() {
    let mut c = cache();
    // Two free slots: key codes 10 and 11, discovered in that order.
    let m1 = c.get_or_add_mapping(0x100).unwrap();
    assert_eq!(m1, Mapping { keycode: 10, modifiers: 0, keysym: 0x100 });
    let m2 = c.get_or_add_mapping(0x101).unwrap();
    assert_eq!(m2, Mapping { keycode: 11, modifiers: 0, keysym: 0x101 });
    // Both stay resolvable without further rebinds.
    assert_eq!(c.get_mapping(0x100), Some(m1));
    assert_eq!(c.get_mapping(0x101), Some(m2));
    // A third symbol evicts the oldest-assigned slot: key code 10.
    let m3 = c.get_or_add_mapping(0x102).unwrap();
    assert_eq!(m3, Mapping { keycode: 10, modifiers: 0, keysym: 0x102 });
    assert_eq!(c.get_mapping(0x100), None);
    assert_eq!(c.get_mapping(0x101), Some(m2));
    // A fourth evicts key code 11, the next oldest.
    let m4 = c.get_or_add_mapping(0x103).unwrap();
    assert_eq!(m4.keycode, 11);
    assert_eq!(c.get_mapping(0x101), None);
    // Never more live dynamic bindings than the pool size of two.
    assert_eq!(c.get_mapping(0x102), Some(m3));
    assert_eq!(c.get_mapping(0x103), Some(m4));
}

#[test]
fn resolve_reports_the_rebind() {
    let mut c = cache();
    match c.resolve(0x200) {
        ResolveOutcome::Rebound(m) => {
            assert_eq!(m.keycode, 10);
            assert_eq!(m.keysym, 0x200);
        },
        other => panic!("expected a rebind, got {:?}", other),
    }
    match c.resolve(0x61) {
        ResolveOutcome::Existing(m) => assert_eq!(m.keycode, 8),
        other => panic!("expected an existing binding, got {:?}", other),
    }
}

#[test]
fn no_free_slot_drops_the_symbol() {
    let keysyms = vec![0x61, 0, XK_BACKSPACE, 0];
    let mut c = KeyStuffingContext::new(8, 2, &keysyms, mod_map()).unwrap();
    assert!(matches!(c.resolve(0x300), ResolveOutcome::NoFreeSlot));
    assert_eq!(c.get_or_add_mapping(0x300), None);
    // The miss changed nothing.
    assert_eq!(c.get_mapping(0x61).unwrap().keycode, 8);
}

#[test]
fn init_errors() {
    assert_eq!(
        KeyStuffingContext::new(8, 0, &host_keysyms(), mod_map()).err(),
        Some(CacheInitError::ZeroKeysymsPerKeycode)
    );
    let no_backspace = vec![0x61, 0x41];
    assert_eq!(
        KeyStuffingContext::new(8, 2, &no_backspace, mod_map()).err(),
        Some(CacheInitError::NoBackspace)
    );
    assert_eq!(
        KeyStuffingContext::new(8, 2, &host_keysyms(), Vec::new()).err(),
        Some(CacheInitError::EmptyModifierMap)
    );
    assert_eq!(
        KeyStuffingContext::new(8, 2, &host_keysyms(), vec![50, 37, 64]).err(),
        Some(CacheInitError::RaggedModifierMap)
    );
    assert_eq!(
        KeyStuffingContext::new(250, 1, &vec![0u32; 20], mod_map()).err(),
        Some(CacheInitError::TooManyKeycodes)
    );
}

#[test]
fn keycode_events_wrap_modifiers_symmetrically() {
    let c = cache();
    // Modifier bits 0 and 2 set: keys 50 and 64 wrap the key press.
    let events = c.keycode_events(12, 0b101);
    assert_eq!(
        events,
        vec![
            KeyEvent { press: true, keycode: 50 },
            KeyEvent { press: true, keycode: 64 },
            KeyEvent { press: true, keycode: 12 },
            KeyEvent { press: false, keycode: 12 },
            KeyEvent { press: false, keycode: 64 },
            KeyEvent { press: false, keycode: 50 },
        ]
    );
}

#[test]
fn emissions_balance_every_key() {
    let mut c = cache();
    let mut all_events = Vec::new();
    for sym in [0x61u32, 0x41, 0x100, 0x101, 0x102, 0x61] {
        if let Some(em) = c.emit(sym, true) {
            all_events.extend(em.events);
        }
    }
    for kc in 0u8..=255 {
        let downs = all_events.iter().filter(|e| e.press && e.keycode == kc).count();
        let ups = all_events.iter().filter(|e| !e.press && e.keycode == kc).count();
        assert_eq!(downs, ups, "unbalanced key code {}", kc);
    }
}

#[test]
fn release_edge_emits_nothing() {
    let mut c = cache();
    let em = c.emit(0x61, false).unwrap();
    assert!(em.events.is_empty());
    assert!(em.rebind.is_none());
    let em2 = c.emit(0x400, true).unwrap();
    let rb = em2.rebind.unwrap();
    assert_eq!(rb.keycode, em2.mapping.keycode);
    assert_eq!(rb.keysym, 0x400);
    assert!(!em2.events.is_empty());
}

#[test]
fn sentinel_symbols_never_enter_the_table() {
    let keysyms = vec![UNUSED_KEYSYM, 0, XK_BACKSPACE, 0];
    let c = KeyStuffingContext::new(8, 2, &keysyms, mod_map()).unwrap();
    assert_eq!(c.get_mapping(UNUSED_KEYSYM), None);
}

#[test]
fn char_to_keysym_rules() {
    assert!(is_latin1('a'));
    assert!(is_latin1('\u{e9}'));
    assert!(!is_latin1('\t'));
    assert!(!is_latin1('\u{2122}'));
    assert_eq!(char_to_keysym('a'), 0x61);
    assert_eq!(char_to_keysym('\u{e9}'), 0xe9);
    assert_eq!(char_to_keysym('\t'), XK_TAB);
    assert_eq!(char_to_keysym('\n'), XK_RETURN);
    assert_eq!(char_to_keysym('\r'), XK_RETURN);
    assert_eq!(char_to_keysym('\u{2122}'), 0x01002122);
}

#[test]
fn fake_event_codes() {
    assert_eq!(KeyEvent { press: true, keycode: 1 }.fake_event_type(), 2);
    assert_eq!(KeyEvent { press: false, keycode: 1 }.fake_event_type(), 3);
    assert_eq!(ButtonEvent { press: true, button: 1 }.fake_event_type(), 4);
    assert_eq!(ButtonEvent { press: false, button: 1 }.fake_event_type(), 5);
    let m = MotionEvent { x: 5, y: -3, relative: true };
    assert_eq!(m.fake_event_type(), 6);
    assert_eq!(m.detail(), 1);
    assert_eq!(MotionEvent { x: 0, y: 0, relative: false }.detail(), 0);
}

#[test]
fn chord_presses_in_order_and_releases_in_reverse() {
    let events = chord_events(&vec![37, 53]);
    assert_eq!(
        events,
        vec![
            KeyEvent { press: true, keycode: 37 },
            KeyEvent { press: true, keycode: 53 },
            KeyEvent { press: false, keycode: 53 },
            KeyEvent { press: false, keycode: 37 },
        ]
    );
    assert_eq!(chord_events(&Vec::new()), Vec::new());
}

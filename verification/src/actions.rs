//! Actions and the static action resolution table.
//!
//! An action is what one logical input emits: nothing, a literal string
//! (sent only on the press edge), a named key symbol (pressed and released
//! with the physical edge), or a combo of key symbols (pressed in order,
//! released in reverse). The table binds one `ActionSet` — four actions, one
//! per face button — to every (zone, layer) combination, plus one set per
//! layer for the directional pad and one action per global modifier. It is
//! built once at startup and never mutated.

use vstd::prelude::*;
use crate::keysym::{XK_ALT_L, XK_BACKSPACE, XK_CONTROL_L, XK_DELETE, XK_DOWN, XK_END, XK_ESCAPE,
    XK_F1, XK_F10, XK_F11, XK_F12, XK_F2, XK_F3, XK_F4, XK_F5, XK_F6, XK_F7, XK_F8, XK_F9, XK_HOME,
    XK_INSERT, XK_LEFT, XK_PAGE_DOWN, XK_PAGE_UP, XK_PRINT, XK_RETURN, XK_RIGHT, XK_SHIFT_L,
    XK_SUPER_L, XK_TAB, XK_UP};
use crate::zone::OctantSection;

verus! {

/// What one logical input emits.
#[derive(Debug, PartialEq, Eq, Hash, Default)]
pub enum Action {
    #[default]
    NoOp,
    /// Send this literal string, on the press edge only.
    Unicode(String),
    /// Press and release the key of this key symbol with the physical edge.
    Key(u32),
    /// Press these key symbols in order, release them in reverse order.
    Combo(Vec<u32>),
}

/// The mathematical value of an `Action`.
pub enum ActionView {
    NoOp,
    Unicode(Seq<char>),
    Key(u32),
    Combo(Seq<u32>),
}

impl View for Action {
    type V = ActionView;

    open spec fn view(&self) -> ActionView {
        match self {
            Action::NoOp => ActionView::NoOp,
            Action::Unicode(s) => ActionView::Unicode(s@),
            Action::Key(k) => ActionView::Key(*k),
            Action::Combo(v) => ActionView::Combo(v@),
        }
    }
}

impl Clone for Action {
    /// A clone carries the same mathematical value.
    fn clone(&self) -> (r: Self)
        ensures
            r@ == self@,
    {
        match self {
            Action::NoOp => Action::NoOp,
            Action::Unicode(s) => Action::Unicode(s.clone()),
            Action::Key(k) => Action::Key(*k),
            Action::Combo(v) => {
                let mut w: Vec<u32> = Vec::new();
                let mut i: usize = 0;
                while i < v.len()
                    invariant
                        i <= v.len(),
                        w@ == v@.subrange(0, i as int),
                    decreases v.len() - i,
                {
                    w.push(v[i]);
                    proof {
                        assert(w@ == v@.subrange(0, i + 1 as int));
                    }
                    i = i + 1;
                }
                proof {
                    assert(v@.subrange(0, v@.len() as int) == v@);
                }
                Action::Combo(w)
            },
        }
    }
}

/// The four actions bound to one (zone, layer) combination, keyed by the
/// face button that triggers each.
#[derive(Debug, PartialEq, Eq, Hash, Default)]
pub struct ActionSet {
    pub n: Action,
    pub e: Action,
    pub s: Action,
    pub w: Action,
}

/// The mathematical value of an `ActionSet`.
pub struct ActionSetView {
    pub n: ActionView,
    pub e: ActionView,
    pub s: ActionView,
    pub w: ActionView,
}

impl View for ActionSet {
    type V = ActionSetView;

    open spec fn view(&self) -> ActionSetView {
        ActionSetView { n: self.n@, e: self.e@, s: self.s@, w: self.w@ }
    }
}

impl Clone for ActionSet {
    /// A clone carries the same mathematical value.
    fn clone(&self) -> (r: Self)
        ensures
            r@ == self@,
    {
        ActionSet { n: self.n.clone(), e: self.e.clone(), s: self.s.clone(), w: self.w.clone() }
    }
}

/// The action emits the single character `c` as literal text.
pub open spec fn is_unicode_char(a: ActionView, c: char) -> bool {
    a == ActionView::Unicode(seq![c])
}

/// The four actions of set `i` emit the four consecutive characters of chunk
/// `i` of `s`, north first, then east, south, west.
pub open spec fn chunk_actionset(a: ActionSetView, s: Seq<char>, i: int) -> bool {
    &&& is_unicode_char(a.n, s[4 * i])
    &&& is_unicode_char(a.e, s[4 * i + 1])
    &&& is_unicode_char(a.s, s[4 * i + 2])
    &&& is_unicode_char(a.w, s[4 * i + 3])
}

/// Relies on `String::from` for `char`: the returned string holds exactly
/// the one given character.
#[verifier::external_body]
fn char_to_string(c: char) -> (r: String)
    ensures
        r@ == seq![c],
{
    String::from(c)
}

/// Builds one action set per four consecutive characters of `s`: each set
/// emits its four characters as literal text, north, east, south, west.
/// A trailing group of fewer than four characters is dropped.
pub fn str_to_actionsets(s: &str) -> (r: Vec<ActionSet>)
    ensures
        r@.len() == s@.len() / 4,
        forall|i: int| 0 <= i < r@.len() ==> chunk_actionset(#[trigger] r@[i]@, s@, i),
{
    let n = s.unicode_len();
    let count = n / 4;
    let mut r: Vec<ActionSet> = Vec::new();
    let mut i: usize = 0;
    while i < count
        invariant
            i <= count,
            count == s@.len() / 4,
            n == s@.len(),
            r@.len() == i,
            forall|j: int| 0 <= j < i ==> chunk_actionset(#[trigger] r@[j]@, s@, j),
        decreases count - i,
    {
        proof {
            assert(4 * (s@.len() / 4) <= s@.len()) by (nonlinear_arith);
            assert(4 * (i + 1) <= 4 * (s@.len() / 4)) by (nonlinear_arith)
                requires
                    i + 1 <= s@.len() / 4,
            ;
        }
        let base = 4 * i;
        let set = ActionSet {
            n: Action::Unicode(char_to_string(s.get_char(base))),
            e: Action::Unicode(char_to_string(s.get_char(base + 1))),
            s: Action::Unicode(char_to_string(s.get_char(base + 2))),
            w: Action::Unicode(char_to_string(s.get_char(base + 3))),
        };
        r.push(set);
        i = i + 1;
    }
    r
}

/// The characters of the primary layer's eight octant sets, four per octant
/// clockwise from north.
pub open spec fn primary_layer_chars() -> Seq<char> {
    "abcdefghijklmnopqrstuvwxyz;/,.\\'"@
}

/// The characters of the secondary layer's first four octant sets.
pub open spec fn secondary_layer_chars() -> Seq<char> {
    "1234567890-=[]`\u{2122}"@
}

/// The four actions of the set press and release these four key symbols.
pub open spec fn key_set(a: ActionSetView, n: u32, e: u32, s: u32, w: u32) -> bool {
    &&& a.n == ActionView::Key(n)
    &&& a.e == ActionView::Key(e)
    &&& a.s == ActionView::Key(s)
    &&& a.w == ActionView::Key(w)
}

/// The whole static action table: one nine-entry zone table per layer
/// (octants 0 through 7, then the center zone at index 8), one directional
/// pad set per layer, and the three global modifier actions.
pub struct ActionTables {
    pub primary: Vec<ActionSet>,
    pub secondary: Vec<ActionSet>,
    pub dpad_primary: ActionSet,
    pub dpad_secondary: ActionSet,
    pub shift: Action,
    pub ctrl: Action,
    pub alt: Action,
}

impl ActionTables {
    /// Both zone tables hold one set per octant plus the center set.
    pub open spec fn wf(self) -> bool {
        self.primary@.len() == 9 && self.secondary@.len() == 9
    }
}

/// The exact contents of the built table. The primary layer writes the
/// alphabet and common punctuation, with whitespace-and-editing keys in the
/// center; the secondary layer writes digits and the remaining punctuation,
/// with function keys, system keys and the clipboard combos in its south,
/// west and center sets.
pub open spec fn tables_built(t: ActionTables) -> bool {
    &&& t.wf()
    &&& forall|i: int|
        0 <= i < 8 ==> chunk_actionset(#[trigger] t.primary@[i]@, primary_layer_chars(), i)
    &&& key_set(t.primary@[8]@, XK_TAB, 0x20, XK_RETURN, XK_BACKSPACE)
    &&& forall|i: int|
        0 <= i < 4 ==> chunk_actionset(#[trigger] t.secondary@[i]@, secondary_layer_chars(), i)
    &&& key_set(t.secondary@[4]@, XK_ESCAPE, XK_PRINT, XK_INSERT, XK_SUPER_L)
    &&& key_set(t.secondary@[5]@, XK_F1, XK_F2, XK_F3, XK_F4)
    &&& key_set(t.secondary@[6]@, XK_F5, XK_F6, XK_F7, XK_F8)
    &&& key_set(t.secondary@[7]@, XK_F9, XK_F10, XK_F11, XK_F12)
    &&& t.secondary@[8]@.n == ActionView::Combo(seq![XK_CONTROL_L, 0x78u32])
    &&& t.secondary@[8]@.e == ActionView::Combo(seq![XK_CONTROL_L, 0x63u32])
    &&& t.secondary@[8]@.s == ActionView::Combo(seq![XK_CONTROL_L, 0x76u32])
    &&& t.secondary@[8]@.w == ActionView::Key(XK_DELETE)
    &&& key_set(t.dpad_primary@, XK_UP, XK_RIGHT, XK_DOWN, XK_LEFT)
    &&& key_set(t.dpad_secondary@, XK_PAGE_UP, XK_END, XK_PAGE_DOWN, XK_HOME)
    &&& t.shift@ == ActionView::Key(XK_SHIFT_L)
    &&& t.ctrl@ == ActionView::Key(XK_CONTROL_L)
    &&& t.alt@ == ActionView::Key(XK_ALT_L)
}

/// A two-symbol combo.
fn combo2(a: u32, b: u32) -> (r: Action)
    ensures
        r@ == ActionView::Combo(seq![a, b]),
{
    let mut v: Vec<u32> = Vec::new();
    v.push(a);
    v.push(b);
    proof {
        assert(v@ =~= seq![a, b]);
    }
    Action::Combo(v)
}

/// Builds the whole static action table, exactly as `tables_built` states.
pub fn build_action_tables() -> (t: ActionTables)
    ensures
        tables_built(t),
{
    proof {
        reveal_strlit("abcdefghijklmnopqrstuvwxyz;/,.\\'");
        reveal_strlit("1234567890-=[]`\u{2122}");
    }
    let mut primary = str_to_actionsets("abcdefghijklmnopqrstuvwxyz;/,.\\'");
    primary.push(
        ActionSet {
            n: Action::Key(XK_TAB),
            e: Action::Key(0x20),
            s: Action::Key(XK_RETURN),
            w: Action::Key(XK_BACKSPACE),
        },
    );
    let mut secondary = str_to_actionsets("1234567890-=[]`\u{2122}");
    secondary.push(
        ActionSet {
            n: Action::Key(XK_ESCAPE),
            e: Action::Key(XK_PRINT),
            s: Action::Key(XK_INSERT),
            w: Action::Key(XK_SUPER_L),
        },
    );
    secondary.push(
        ActionSet {
            n: Action::Key(XK_F1),
            e: Action::Key(XK_F2),
            s: Action::Key(XK_F3),
            w: Action::Key(XK_F4),
        },
    );
    secondary.push(
        ActionSet {
            n: Action::Key(XK_F5),
            e: Action::Key(XK_F6),
            s: Action::Key(XK_F7),
            w: Action::Key(XK_F8),
        },
    );
    secondary.push(
        ActionSet {
            n: Action::Key(XK_F9),
            e: Action::Key(XK_F10),
            s: Action::Key(XK_F11),
            w: Action::Key(XK_F12),
        },
    );
    secondary.push(
        ActionSet {
            n: combo2(XK_CONTROL_L, 0x78),
            e: combo2(XK_CONTROL_L, 0x63),
            s: combo2(XK_CONTROL_L, 0x76),
            w: Action::Key(XK_DELETE),
        },
    );
    ActionTables {
        primary,
        secondary,
        dpad_primary: ActionSet {
            n: Action::Key(XK_UP),
            e: Action::Key(XK_RIGHT),
            s: Action::Key(XK_DOWN),
            w: Action::Key(XK_LEFT),
        },
        dpad_secondary: ActionSet {
            n: Action::Key(XK_PAGE_UP),
            e: Action::Key(XK_END),
            s: Action::Key(XK_PAGE_DOWN),
            w: Action::Key(XK_HOME),
        },
        shift: Action::Key(XK_SHIFT_L),
        ctrl: Action::Key(XK_CONTROL_L),
        alt: Action::Key(XK_ALT_L),
    }
}

/// The zone's row in a layer table: its octant number, or 8 for the center.
pub open spec fn zone_index(o: OctantSection) -> int {
    match o {
        OctantSection::Octant(i) => i as int,
        OctantSection::Center => 8,
    }
}

/// The zone is one the classifier can produce: an octant number is below 8.
pub open spec fn zone_valid(o: OctantSection) -> bool {
    match o {
        OctantSection::Octant(i) => i < 8,
        OctantSection::Center => true,
    }
}

/// Looks one zone's action set up in the asked layer's table.
pub fn actionset_for<'a>(t: &'a ActionTables, octant: OctantSection, secondary: bool) -> (r:
    &'a ActionSet)
    requires
        t.wf(),
        zone_valid(octant),
    ensures
        *r == if secondary {
            t.secondary@[zone_index(octant)]
        } else {
            t.primary@[zone_index(octant)]
        },
{
    let idx: usize = match octant {
        OctantSection::Octant(i) => i as usize,
        OctantSection::Center => 8,
    };
    if secondary {
        &t.secondary[idx]
    } else {
        &t.primary[idx]
    }
}

} // verus!

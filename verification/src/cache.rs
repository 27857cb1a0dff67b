//! The dynamic keycode cache: resolves a Unicode code point (as a key
//! symbol) to a hardware key code plus modifier mask, maintaining a bounded
//! pool of reassignable hardware key slots for code points the host's static
//! table cannot produce.
//!
//! The cache is a pure state machine: it decides, it never talks to the
//! host. Where a resolution needs the host to rebind a hardware slot, the
//! caller receives the rebind command and must issue it, synchronously,
//! before trusting the returned mapping. The free pool is a first-in
//! first-out queue — a reused slot goes to the tail, so the slot that has
//! held its symbol longest is always the next evicted.

use vstd::prelude::*;
use std::collections::HashMap;
use crate::keysym::XK_BACKSPACE;

verus! {

/// The key symbol a free dynamic slot carries before its first assignment.
pub const UNUSED_KEYSYM: u32 = 0xffff_ffff;

/// One live binding: the code point `keysym` is produced by pressing the
/// hardware key `keycode` while the modifiers of `modifiers` are held.
#[derive(Debug, Copy, Clone, PartialEq, Eq, Structural)]
pub struct Mapping {
    pub keycode: u8,
    pub modifiers: u16,
    pub keysym: u32,
}

/// The host's modifier table: eight groups of `subsize` key codes, one group
/// per modifier bit, flattened into one row-major vector.
#[derive(Debug, Clone)]
pub struct ModifierMapping {
    pub subsize: usize,
    pub map: Vec<u8>,
}

impl ModifierMapping {
    /// Eight equal groups of at least one key code each.
    pub open spec fn wf(self) -> bool {
        self.map@.len() == 8 * self.subsize && self.subsize >= 1
    }

    /// The first key code of modifier bit `i`'s group: the key the engine
    /// presses to hold that modifier.
    pub open spec fn spec_keycode(self, i: int) -> u8 {
        self.map@[i * self.subsize]
    }

    /// The key code the engine presses to hold modifier bit `i`.
    pub fn keycode(&self, i: usize) -> (r: u8)
        requires
            self.wf(),
            i < 8,
        ensures
            r == self.spec_keycode(i as int),
    {
        let n = self.map.len();
        proof {
            assert(i * self.subsize < n) by (nonlinear_arith)
                requires
                    i < 8,
                    self.subsize >= 1,
                    n == 8 * self.subsize,
            ;
        }
        self.map[i * self.subsize]
    }
}

/// A host key event the caller is to inject: press or release one key code.
#[derive(Debug, Copy, Clone, PartialEq, Eq, Structural)]
pub struct KeyEvent {
    pub press: bool,
    pub keycode: u8,
}

impl KeyEvent {
    /// The fake-input event code of this event: 2 for a press, 3 for a
    /// release.
    pub fn fake_event_type(&self) -> (r: u8)
        ensures
            r == if self.press {
                2u8
            } else {
                3u8
            },
    {
        if self.press {
            2
        } else {
            3
        }
    }
}

/// A pointer button event: press or release one physical button.
#[derive(Debug, Copy, Clone, PartialEq, Eq, Structural)]
pub struct ButtonEvent {
    pub press: bool,
    pub button: u8,
}

impl ButtonEvent {
    /// The fake-input event code of this event: 4 for a press, 5 for a
    /// release.
    pub fn fake_event_type(&self) -> (r: u8)
        ensures
            r == if self.press {
                4u8
            } else {
                5u8
            },
    {
        if self.press {
            4
        } else {
            5
        }
    }
}

/// A pointer motion event, absolute or relative.
#[derive(Debug, Copy, Clone, PartialEq, Eq, Structural)]
pub struct MotionEvent {
    pub x: i16,
    pub y: i16,
    pub relative: bool,
}

impl MotionEvent {
    /// The fake-input event code of a motion event.
    pub fn fake_event_type(&self) -> (r: u8)
        ensures
            r == 6u8,
    {
        6
    }

    /// The detail byte of a motion event: 1 for relative, 0 for absolute.
    pub fn detail(&self) -> (r: u8)
        ensures
            r == if self.relative {
                1u8
            } else {
                0u8
            },
    {
        if self.relative {
            1
        } else {
            0
        }
    }
}

/// A rebind command the caller must issue to the host, synchronously, before
/// trusting the mapping it came with: hardware slot `keycode` is to produce
/// `keysym` from now on.
#[derive(Debug, Copy, Clone, PartialEq, Eq, Structural)]
pub struct Rebind {
    pub keycode: u8,
    pub keysym: u32,
}

/// How one key symbol was resolved.
#[derive(Debug, Copy, Clone, PartialEq, Eq, Structural)]
pub enum ResolveOutcome {
    /// A binding already existed, static or dynamic; nothing changed.
    Existing(Mapping),
    /// A free slot was taken: the caller must issue the rebind of the
    /// mapping's key code to its key symbol before using the mapping.
    Rebound(Mapping),
    /// No binding exists and the free pool is empty; the caller must drop
    /// this code point.
    NoFreeSlot,
}

/// Why the cache could not be built from the host's tables. Each of these is
/// a malformed or unusable host reply, fatal at start-up: the engine cannot
/// run without a stable hardware table baseline.
#[derive(Debug, Copy, Clone, PartialEq, Eq, Structural)]
pub enum CacheInitError {
    /// The host reported zero key symbols per key code.
    ZeroKeysymsPerKeycode,
    /// The key symbol table runs past the last expressible key code.
    TooManyKeycodes,
    /// The host table binds no backspace key.
    NoBackspace,
    /// The host returned an empty modifier table.
    EmptyModifierMap,
    /// The host's modifier table is not eight equal groups.
    RaggedModifierMap,
}

/// How many key codes the host's key symbol table covers: one per group of
/// `kpk` symbols, a trailing partial group counting as one.
pub open spec fn n_slots_spec(total: int, kpk: int) -> int {
    total / kpk + if total % kpk != 0 {
        1int
    } else {
        0int
    }
}

/// Key code `i`'s group of symbols: `kpk` of them, fewer in a trailing
/// partial group.
pub open spec fn chunk(ks: Seq<u32>, kpk: int, i: int) -> Seq<u32> {
    ks.subrange(
        i * kpk,
        if (i + 1) * kpk <= ks.len() {
            (i + 1) * kpk
        } else {
            ks.len() as int
        },
    )
}

/// The length of a symbol group once its trailing empty symbols are dropped.
pub open spec fn trim_len(c: Seq<u32>) -> int
    decreases c.len(),
{
    if c.len() > 0 && c.last() == 0 {
        trim_len(c.drop_last())
    } else {
        c.len() as int
    }
}

/// Key code `i` carries symbol `s` in its plain (unshifted) column.
pub open spec fn col0(ks: Seq<u32>, kpk: int, i: int, s: u32) -> bool {
    trim_len(chunk(ks, kpk, i)) >= 1 && chunk(ks, kpk, i)[0] == s
}

/// Key code `i` carries symbol `s` in its shifted column.
pub open spec fn col1(ks: Seq<u32>, kpk: int, i: int, s: u32) -> bool {
    trim_len(chunk(ks, kpk, i)) >= 2 && chunk(ks, kpk, i)[1] == s
}

/// Key code `i` carries no symbol at all: a free slot for dynamic bindings.
pub open spec fn free_slot(ks: Seq<u32>, kpk: int, i: int) -> bool {
    trim_len(chunk(ks, kpk, i)) == 0
}

/// The symbol is one the table may bind: not the empty symbol and not the
/// free-slot sentinel.
pub open spec fn valid_sym(s: u32) -> bool {
    s != 0 && s != UNUSED_KEYSYM
}

/// The first key code among `0 .. i` whose plain column carries `s`, or -1.
pub open spec fn first0_upto(ks: Seq<u32>, kpk: int, s: u32, i: int) -> int
    decreases i,
{
    if i <= 0 {
        -1
    } else if first0_upto(ks, kpk, s, i - 1) >= 0 {
        first0_upto(ks, kpk, s, i - 1)
    } else if col0(ks, kpk, i - 1, s) {
        i - 1
    } else {
        -1
    }
}

/// The first key code among `0 .. i` whose shifted column carries `s`, or -1.
pub open spec fn first1_upto(ks: Seq<u32>, kpk: int, s: u32, i: int) -> int
    decreases i,
{
    if i <= 0 {
        -1
    } else if first1_upto(ks, kpk, s, i - 1) >= 0 {
        first1_upto(ks, kpk, s, i - 1)
    } else if col1(ks, kpk, i - 1, s) {
        i - 1
    } else {
        -1
    }
}

/// Symbol `s` is bound once key codes `0 .. i` are scanned.
pub open spec fn static_dom(ks: Seq<u32>, kpk: int, s: u32, i: int) -> bool {
    valid_sym(s) && (first0_upto(ks, kpk, s, i) >= 0 || first1_upto(ks, kpk, s, i) >= 0)
}

/// The binding symbol `s` ends with once key codes `0 .. i` are scanned: the
/// first unshifted occurrence wins; only when none exists does the first
/// shifted occurrence, with the shift modifier, stand.
pub open spec fn built_mapping(ks: Seq<u32>, kpk: int, min: int, s: u32, i: int) -> Mapping {
    if first0_upto(ks, kpk, s, i) >= 0 {
        Mapping { keycode: (min + first0_upto(ks, kpk, s, i)) as u8, modifiers: 0, keysym: s }
    } else {
        Mapping { keycode: (min + first1_upto(ks, kpk, s, i)) as u8, modifiers: 1, keysym: s }
    }
}

/// The free pool after key codes `0 .. i` are scanned: one unassigned slot
/// per empty key code, in discovery order.
pub open spec fn free_queue_upto(ks: Seq<u32>, kpk: int, min: int, i: int) -> Seq<Mapping>
    decreases i,
{
    if i <= 0 {
        Seq::empty()
    } else if free_slot(ks, kpk, i - 1) {
        free_queue_upto(ks, kpk, min, i - 1).push(
            Mapping { keycode: (min + i - 1) as u8, modifiers: 0, keysym: UNUSED_KEYSYM },
        )
    } else {
        free_queue_upto(ks, kpk, min, i - 1)
    }
}

/// Trimming only drops trailing empty symbols, and stops at the last
/// non-empty one.
proof fn lemma_trim_len_bounds(c: Seq<u32>)
    ensures
        0 <= trim_len(c) <= c.len(),
        forall|j: int| trim_len(c) <= j < c.len() ==> c[j] == 0,
        trim_len(c) > 0 ==> c[trim_len(c) - 1] != 0,
    decreases c.len(),
{
    if c.len() > 0 && c.last() == 0 {
        let d = c.drop_last();
        lemma_trim_len_bounds(d);
        assert(trim_len(c) == trim_len(d));
        assert forall|j: int| trim_len(c) <= j < c.len() implies c[j] == 0 by {
            if j < c.len() - 1 {
                assert(c[j] == d[j]);
            } else {
                assert(c[j] == c.last());
            }
        }
        if trim_len(c) > 0 {
            assert(c[trim_len(c) - 1] == d[trim_len(d) - 1]);
        }
    }
}

/// The trimmed length is pinned by its two properties: everything at or past
/// it is the empty symbol, and the symbol just before it (if any) is not.
proof fn lemma_trim_len_exact(c: Seq<u32>, l: int)
    requires
        0 <= l <= c.len(),
        forall|j: int| l <= j < c.len() ==> c[j] == 0,
        l > 0 ==> c[l - 1] != 0,
    ensures
        trim_len(c) == l,
    decreases c.len(),
{
    if c.len() > 0 && c.last() == 0 {
        assert(l < c.len());
        lemma_trim_len_exact(c.drop_last(), l);
    } else {
        if c.len() > 0 {
            assert(l == c.len());
        }
    }
}

/// Every slot of the initial free pool is unassigned, modifier-free, and
/// holds a key code of its own.
proof fn lemma_free_queue_upto(ks: Seq<u32>, kpk: int, min: int, i: int)
    requires
        0 <= min,
        0 <= i,
        min + i <= 256,
    ensures
        forall|j: int|
            0 <= j < free_queue_upto(ks, kpk, min, i).len() ==> {
                &&& (#[trigger] free_queue_upto(ks, kpk, min, i)[j]).modifiers == 0
                &&& free_queue_upto(ks, kpk, min, i)[j].keysym == UNUSED_KEYSYM
                &&& min <= free_queue_upto(ks, kpk, min, i)[j].keycode < min + i
            },
        forall|j1: int, j2: int|
            0 <= j1 < j2 < free_queue_upto(ks, kpk, min, i).len() ==> (#[trigger] free_queue_upto(
                ks,
                kpk,
                min,
                i,
            )[j1]).keycode < (#[trigger] free_queue_upto(ks, kpk, min, i)[j2]).keycode,
    decreases i,
{
    if i > 0 {
        lemma_free_queue_upto(ks, kpk, min, i - 1);
        let inner = free_queue_upto(ks, kpk, min, i - 1);
        let q = free_queue_upto(ks, kpk, min, i);
        if free_slot(ks, kpk, i - 1) {
            let m = Mapping { keycode: (min + i - 1) as u8, modifiers: 0, keysym: UNUSED_KEYSYM };
            assert(q == inner.push(m));
            assert(min + i - 1 <= 255);
            assert(m.keycode == min + i - 1);
            assert forall|j: int| 0 <= j < q.len() implies {
                &&& (#[trigger] q[j]).modifiers == 0
                &&& q[j].keysym == UNUSED_KEYSYM
                &&& min <= q[j].keycode < min + i
            } by {
                if j < inner.len() {
                    assert(q[j] == inner[j]);
                } else {
                    assert(q[j] == m);
                }
            }
            assert forall|j1: int, j2: int| 0 <= j1 < j2 < q.len() implies (#[trigger] q[j1]).keycode
                < (#[trigger] q[j2]).keycode by {
                if j2 < inner.len() {
                    assert(q[j1] == inner[j1] && q[j2] == inner[j2]);
                } else {
                    assert(q[j2] == m);
                    assert(q[j1] == inner[j1]);
                    assert(inner[j1].keycode < min + (i - 1));
                }
            }
        } else {
            assert(q == inner);
        }
    }
}

/// A chunk index below the slot count starts inside the symbol table.
proof fn lemma_chunk_bounds(total: int, kpk: int, i: int)
    requires
        kpk >= 1,
        total >= 0,
        0 <= i < n_slots_spec(total, kpk),
    ensures
        i * kpk < total,
{
    vstd::arithmetic::div_mod::lemma_fundamental_div_mod(total, kpk);
    vstd::arithmetic::div_mod::lemma_mod_bound(total, kpk);
    let q = total / kpk;
    let r = total % kpk;
    if r == 0 {
        assert(i * kpk <= (q - 1) * kpk) by (nonlinear_arith)
            requires
                i <= q - 1 && kpk >= 1,
        ;
        assert((q - 1) * kpk == q * kpk - kpk) by (nonlinear_arith);
    } else {
        assert(i * kpk <= q * kpk) by (nonlinear_arith)
            requires
                i <= q && kpk >= 1,
        ;
    }
}


/// Bit `i` of a modifier mask.
pub open spec fn mod_bit(modifiers: u16, i: int) -> bool {
    (modifiers as int) / crate::report::pow2_u8(i) % 2 == 1
}

/// The modifier-down events of an emission: one press per set bit, lowest
/// bit first, each pressing the first key code of that modifier's group.
pub open spec fn mods_down(modifiers: u16, mm: ModifierMapping, i: int) -> Seq<KeyEvent>
    decreases 8 - i,
{
    if i < 0 || i >= 8 {
        Seq::empty()
    } else {
        (if mod_bit(modifiers, i) {
            seq![KeyEvent { press: true, keycode: mm.spec_keycode(i) }]
        } else {
            Seq::empty()
        }) + mods_down(modifiers, mm, i + 1)
    }
}

/// The modifier-up events of an emission: one release per set bit, highest
/// bit first — the exact reverse of the downs.
pub open spec fn mods_up(modifiers: u16, mm: ModifierMapping, i: int) -> Seq<KeyEvent>
    decreases i + 1,
{
    if i < 0 || i > 7 {
        Seq::empty()
    } else {
        (if mod_bit(modifiers, i) {
            seq![KeyEvent { press: false, keycode: mm.spec_keycode(i) }]
        } else {
            Seq::empty()
        }) + mods_up(modifiers, mm, i - 1)
    }
}

/// The whole event sequence that types one key: modifier downs, the key's
/// press and release, then the modifier ups in reverse order.
pub open spec fn keycode_events_spec(keycode: u8, modifiers: u16, mm: ModifierMapping) -> Seq<
    KeyEvent,
> {
    mods_down(modifiers, mm, 0) + seq![
        KeyEvent { press: true, keycode },
        KeyEvent { press: false, keycode },
    ] + mods_up(modifiers, mm, 7)
}

/// How many events of a sequence press (or release) one key code.
pub open spec fn count_events(s: Seq<KeyEvent>, kc: u8, press: bool) -> int
    decreases s.len(),
{
    if s.len() == 0 {
        0
    } else {
        count_events(s.drop_last(), kc, press) + if s.last().keycode == kc && s.last().press
            == press {
            1int
        } else {
            0int
        }
    }
}

/// Every key code is pressed in the sequence exactly as often as it is
/// released.
pub open spec fn balanced(s: Seq<KeyEvent>) -> bool {
    forall|kc: u8| count_events(s, kc, true) == count_events(s, kc, false)
}

/// Event counts add over concatenation.
pub proof fn lemma_count_events_concat(a: Seq<KeyEvent>, b: Seq<KeyEvent>, kc: u8, press: bool)
    ensures
        count_events(a + b, kc, press) == count_events(a, kc, press) + count_events(b, kc, press),
    decreases b.len(),
{
    if b.len() == 0 {
        assert(a + b =~= a);
    } else {
        lemma_count_events_concat(a, b.drop_last(), kc, press);
        assert((a + b).drop_last() =~= a + b.drop_last());
        assert((a + b).last() == b.last());
    }
}

/// Balance law for whole runs: the concatenation of balanced event
/// sequences — any sequence of emissions — is itself balanced.
pub proof fn lemma_balanced_concat(a: Seq<KeyEvent>, b: Seq<KeyEvent>)
    requires
        balanced(a),
        balanced(b),
    ensures
        balanced(a + b),
{
    assert forall|kc: u8| count_events(a + b, kc, true) == count_events(a + b, kc, false) by {
        lemma_count_events_concat(a, b, kc, true);
        lemma_count_events_concat(a, b, kc, false);
    }
}

/// The number of set bits in `[lo, hi)` of the mask whose modifier key is
/// `kc`.
pub open spec fn count_mod_bits(modifiers: u16, mm: ModifierMapping, kc: u8, lo: int, hi: int) -> int
    decreases hi - lo,
{
    if hi <= lo {
        0
    } else {
        count_mod_bits(modifiers, mm, kc, lo, hi - 1) + if mod_bit(modifiers, hi - 1)
            && mm.spec_keycode(hi - 1) == kc {
            1int
        } else {
            0int
        }
    }
}

/// The downs press each modifier key once per set bit, and release nothing.
proof fn lemma_mods_down_counts(modifiers: u16, mm: ModifierMapping, kc: u8, i: int)
    requires
        0 <= i <= 8,
    ensures
        count_events(mods_down(modifiers, mm, i), kc, true) == count_mod_bits(
            modifiers,
            mm,
            kc,
            i,
            8,
        ),
        count_events(mods_down(modifiers, mm, i), kc, false) == 0,
    decreases 8 - i,
{
    if i < 8 {
        lemma_mods_down_counts(modifiers, mm, kc, i + 1);
        let head = if mod_bit(modifiers, i) {
            seq![KeyEvent { press: true, keycode: mm.spec_keycode(i) }]
        } else {
            Seq::<KeyEvent>::empty()
        };
        let rest = mods_down(modifiers, mm, i + 1);
        assert(mods_down(modifiers, mm, i) == head + rest);
        if mod_bit(modifiers, i) {
            assert(head.drop_last() =~= Seq::<KeyEvent>::empty());
            assert(count_events(Seq::<KeyEvent>::empty(), kc, true) == 0);
            assert(count_events(Seq::<KeyEvent>::empty(), kc, false) == 0);
            assert(count_events(head, kc, true) == if mm.spec_keycode(i) == kc {
                1int
            } else {
                0int
            });
            assert(count_events(head, kc, false) == 0);
        } else {
            assert(head =~= Seq::<KeyEvent>::empty());
        }
        lemma_count_events_concat(head, rest, kc, true);
        lemma_count_events_concat(head, rest, kc, false);
        lemma_count_mod_bits_split(modifiers, mm, kc, i, 8);
    }
}

/// Splitting a bit range at its low end splits the count.
proof fn lemma_count_mod_bits_split(modifiers: u16, mm: ModifierMapping, kc: u8, lo: int, hi: int)
    requires
        lo < hi,
    ensures
        count_mod_bits(modifiers, mm, kc, lo, hi) == count_mod_bits(modifiers, mm, kc, lo + 1, hi)
            + if mod_bit(modifiers, lo) && mm.spec_keycode(lo) == kc {
            1int
        } else {
            0int
        },
    decreases hi - lo,
{
    if lo + 1 < hi {
        lemma_count_mod_bits_split(modifiers, mm, kc, lo, hi - 1);
    } else {
        assert(hi == lo + 1);
        assert(count_mod_bits(modifiers, mm, kc, lo + 1, hi) == 0);
        assert(count_mod_bits(modifiers, mm, kc, lo, lo) == 0);
    }
}

/// The ups release each modifier key once per set bit, and press nothing.
proof fn lemma_mods_up_counts(modifiers: u16, mm: ModifierMapping, kc: u8, i: int)
    requires
        -1 <= i <= 7,
    ensures
        count_events(mods_up(modifiers, mm, i), kc, false) == count_mod_bits(
            modifiers,
            mm,
            kc,
            0,
            i + 1,
        ),
        count_events(mods_up(modifiers, mm, i), kc, true) == 0,
    decreases i + 1,
{
    if i >= 0 {
        lemma_mods_up_counts(modifiers, mm, kc, i - 1);
        let head = if mod_bit(modifiers, i) {
            seq![KeyEvent { press: false, keycode: mm.spec_keycode(i) }]
        } else {
            Seq::<KeyEvent>::empty()
        };
        let rest = mods_up(modifiers, mm, i - 1);
        assert(mods_up(modifiers, mm, i) == head + rest);
        if mod_bit(modifiers, i) {
            assert(head.drop_last() =~= Seq::<KeyEvent>::empty());
            assert(count_events(Seq::<KeyEvent>::empty(), kc, true) == 0);
            assert(count_events(Seq::<KeyEvent>::empty(), kc, false) == 0);
            assert(count_events(head, kc, false) == if mm.spec_keycode(i) == kc {
                1int
            } else {
                0int
            });
            assert(count_events(head, kc, true) == 0);
        } else {
            assert(head =~= Seq::<KeyEvent>::empty());
        }
        lemma_count_events_concat(head, rest, kc, false);
        lemma_count_events_concat(head, rest, kc, true);
    }
}

/// Balanced modifiers law: in the event sequence that types one key, every
/// key code — the key itself and every modifier key — is pressed exactly as
/// often as it is released.
pub proof fn lemma_keycode_events_balanced(keycode: u8, modifiers: u16, mm: ModifierMapping)
    ensures
        balanced(keycode_events_spec(keycode, modifiers, mm)),
{
    let pair = seq![KeyEvent { press: true, keycode }, KeyEvent { press: false, keycode }];
    assert forall|kc: u8|
        count_events(keycode_events_spec(keycode, modifiers, mm), kc, true) == count_events(
            keycode_events_spec(keycode, modifiers, mm),
            kc,
            false,
        ) by {
        lemma_mods_down_counts(modifiers, mm, kc, 0);
        lemma_mods_up_counts(modifiers, mm, kc, 7);
        lemma_count_events_concat(mods_down(modifiers, mm, 0), pair, kc, true);
        lemma_count_events_concat(mods_down(modifiers, mm, 0), pair, kc, false);
        lemma_count_events_concat(
            mods_down(modifiers, mm, 0) + pair,
            mods_up(modifiers, mm, 7),
            kc,
            true,
        );
        lemma_count_events_concat(
            mods_down(modifiers, mm, 0) + pair,
            mods_up(modifiers, mm, 7),
            kc,
            false,
        );
        let single = seq![KeyEvent { press: true, keycode }];
        assert(pair.drop_last() =~= single);
        assert(single.drop_last() =~= Seq::<KeyEvent>::empty());
        assert(count_events(Seq::<KeyEvent>::empty(), kc, true) == 0);
        assert(count_events(Seq::<KeyEvent>::empty(), kc, false) == 0);
        assert(count_events(single, kc, true) == if keycode == kc {
            1int
        } else {
            0int
        });
        assert(count_events(single, kc, false) == 0);
        assert(count_events(pair, kc, true) == count_events(pair, kc, false));
    }
}


/// The event sequence of one chord: every key code pressed in order, then
/// released in reverse order.
pub open spec fn chord_events_spec(codes: Seq<u8>) -> Seq<KeyEvent> {
    codes.map_values(|c: u8| KeyEvent { press: true, keycode: c }) + codes.reverse().map_values(
        |c: u8| KeyEvent { press: false, keycode: c },
    )
}

/// Reversing a sequence leaves every event count unchanged.
proof fn lemma_count_events_reverse(s: Seq<KeyEvent>, kc: u8, press: bool)
    ensures
        count_events(s.reverse(), kc, press) == count_events(s, kc, press),
    decreases s.len(),
{
    if s.len() > 0 {
        lemma_count_events_reverse(s.drop_last(), kc, press);
        let single = seq![s.last()];
        assert(s.reverse() =~= single + s.drop_last().reverse());
        lemma_count_events_concat(single, s.drop_last().reverse(), kc, press);
        assert(single.drop_last() =~= Seq::<KeyEvent>::empty());
        assert(count_events(Seq::<KeyEvent>::empty(), kc, press) == 0);
    }
}

/// Mapping the same key codes to presses and to releases yields mirrored
/// counts.
proof fn lemma_chord_counts(codes: Seq<u8>, kc: u8)
    ensures
        count_events(
            codes.map_values(|c: u8| KeyEvent { press: true, keycode: c }),
            kc,
            true,
        ) == count_events(
            codes.map_values(|c: u8| KeyEvent { press: false, keycode: c }),
            kc,
            false,
        ),
        count_events(codes.map_values(|c: u8| KeyEvent { press: true, keycode: c }), kc, false)
            == 0,
        count_events(codes.map_values(|c: u8| KeyEvent { press: false, keycode: c }), kc, true)
            == 0,
    decreases codes.len(),
{
    let downs = codes.map_values(|c: u8| KeyEvent { press: true, keycode: c });
    let ups = codes.map_values(|c: u8| KeyEvent { press: false, keycode: c });
    if codes.len() > 0 {
        lemma_chord_counts(codes.drop_last(), kc);
        assert(downs.drop_last() =~= codes.drop_last().map_values(
            |c: u8| KeyEvent { press: true, keycode: c },
        ));
        assert(ups.drop_last() =~= codes.drop_last().map_values(
            |c: u8| KeyEvent { press: false, keycode: c },
        ));
        assert(downs.last() == KeyEvent { press: true, keycode: codes.last() });
        assert(ups.last() == KeyEvent { press: false, keycode: codes.last() });
    } else {
        assert(downs =~= Seq::<KeyEvent>::empty());
        assert(ups =~= Seq::<KeyEvent>::empty());
    }
}

/// Chord balance law: a chord's event sequence presses every key code
/// exactly as often as it releases it.
pub proof fn lemma_chord_balanced(codes: Seq<u8>)
    ensures
        balanced(chord_events_spec(codes)),
{
    let downs = codes.map_values(|c: u8| KeyEvent { press: true, keycode: c });
    let ups = codes.reverse().map_values(|c: u8| KeyEvent { press: false, keycode: c });
    assert(ups =~= codes.map_values(|c: u8| KeyEvent { press: false, keycode: c }).reverse());
    assert forall|kc: u8|
        count_events(chord_events_spec(codes), kc, true) == count_events(
            chord_events_spec(codes),
            kc,
            false,
        ) by {
        lemma_chord_counts(codes, kc);
        lemma_count_events_reverse(
            codes.map_values(|c: u8| KeyEvent { press: false, keycode: c }),
            kc,
            true,
        );
        lemma_count_events_reverse(
            codes.map_values(|c: u8| KeyEvent { press: false, keycode: c }),
            kc,
            false,
        );
        lemma_count_events_concat(downs, ups, kc, true);
        lemma_count_events_concat(downs, ups, kc, false);
    }
}

/// Builds the event sequence of one chord: the given key codes pressed in
/// order, then released in reverse order, so the chord leaves every key up.
pub fn chord_events(codes: &Vec<u8>) -> (r: Vec<KeyEvent>)
    ensures
        r@ == chord_events_spec(codes@),
        balanced(r@),
{
    let mut r: Vec<KeyEvent> = Vec::new();
    let n = codes.len();
    let mut i: usize = 0;
    while i < n
        invariant
            i <= n,
            n == codes@.len(),
            r@ == codes@.subrange(0, i as int).map_values(
                |c: u8| KeyEvent { press: true, keycode: c },
            ),
        decreases n - i,
    {
        r.push(KeyEvent { press: true, keycode: codes[i] });
        proof {
            assert(r@ =~= codes@.subrange(0, i + 1).map_values(
                |c: u8| KeyEvent { press: true, keycode: c },
            ));
        }
        i = i + 1;
    }
    proof {
        assert(codes@.subrange(0, n as int) =~= codes@);
    }
    let ghost downs = codes@.map_values(|c: u8| KeyEvent { press: true, keycode: c });
    let mut j: usize = n;
    while j > 0
        invariant
            j <= n,
            n == codes@.len(),
            r@ == downs + codes@.subrange(j as int, n as int).reverse().map_values(
                |c: u8| KeyEvent { press: false, keycode: c },
            ),
        decreases j,
    {
        r.push(KeyEvent { press: false, keycode: codes[j - 1] });
        proof {
            assert(r@ =~= downs + codes@.subrange(j - 1, n as int).reverse().map_values(
                |c: u8| KeyEvent { press: false, keycode: c },
            ));
        }
        j = j - 1;
    }
    proof {
        assert(codes@.subrange(0, n as int) =~= codes@);
        assert(r@ =~= chord_events_spec(codes@));
        lemma_chord_balanced(codes@);
    }
    r
}

/// One emission, ready for the caller to perform: the mapping it used, the
/// host rebind that must be issued first (if the mapping is freshly
/// assigned), and the key events to inject.
pub struct Emission {
    pub mapping: Mapping,
    pub rebind: Option<Rebind>,
    pub events: Vec<KeyEvent>,
}

/// The dynamic keycode cache.
pub struct KeyStuffingContext {
    keymap: HashMap<u32, Mapping>,
    custom_queue: Vec<Mapping>,
    backspace: Mapping,
    modifier_map: ModifierMapping,
}

impl KeyStuffingContext {
    /// The live bindings, keyed by key symbol.
    pub closed spec fn map_view(self) -> Map<u32, Mapping> {
        self.keymap@
    }

    /// The free pool: index 0 is reused next, the tail last.
    pub closed spec fn queue_view(self) -> Seq<Mapping> {
        self.custom_queue@
    }

    /// The binding of the backspace key, fixed at start-up.
    pub closed spec fn backspace_view(self) -> Mapping {
        self.backspace
    }

    /// The host's modifier table, fixed at start-up.
    pub closed spec fn modifier_map_view(self) -> ModifierMapping {
        self.modifier_map
    }

    /// The cache's invariant. Every binding is keyed by its own key symbol
    /// and never by the empty symbol or the free-slot sentinel; every
    /// assigned pool slot is exactly the live binding of its symbol; pool
    /// slots are modifier-free and pairwise distinct hardware keys.
    pub closed spec fn wf(self) -> bool {
        &&& forall|s: u32|
            self.keymap@.contains_key(s) ==> {
                &&& (#[trigger] self.keymap@[s]).keysym == s
                &&& s != 0
                &&& s != UNUSED_KEYSYM
            }
        &&& forall|i: int|
            0 <= i < self.custom_queue@.len() ==> (#[trigger] self.custom_queue@[i]).modifiers == 0
        &&& forall|i: int|
            0 <= i < self.custom_queue@.len() && (#[trigger] self.custom_queue@[i]).keysym
                != UNUSED_KEYSYM ==> self.keymap@.contains_key(self.custom_queue@[i].keysym)
                && self.keymap@[self.custom_queue@[i].keysym] == self.custom_queue@[i]
        &&& forall|i: int, j: int|
            0 <= i < self.custom_queue@.len() && 0 <= j < self.custom_queue@.len() && i != j ==> (
            #[trigger] self.custom_queue@[i]).keycode != (#[trigger] self.custom_queue@[j]).keycode
        &&& self.modifier_map.wf()
    }

    /// Whether the cache holds the invariant; exposed so callers can state
    /// it without seeing the representation.
    pub open spec fn inv(self) -> bool {
        self.wf()
    }

    /// Builds the cache from the host's key symbol table and modifier table.
    ///
    /// Key code `min_keycode + i` owns symbols `i * keysyms_per_keycode ..`
    /// of `keysyms`. For every symbol the lowest-modifier binding wins: the
    /// first unshifted occurrence, else the first shifted one. Key codes
    /// whose group is all empty symbols form the free pool, in discovery
    /// order. A table without a backspace binding, a zero group size, a
    /// table running past the last key code, and an empty or ragged modifier
    /// table are each rejected as fatal.
    pub fn new(
        min_keycode: u8,
        keysyms_per_keycode: u8,
        keysyms: &Vec<u32>,
        modifier_keycodes: Vec<u8>,
    ) -> (r: Result<Self, CacheInitError>)
        ensures
            match r {
                Ok(c) => {
                    let ks = keysyms@;
                    let kpk = keysyms_per_keycode as int;
                    let min = min_keycode as int;
                    let n = n_slots_spec(ks.len() as int, kpk);
                    &&& keysyms_per_keycode != 0
                    &&& min + n <= 256
                    &&& c.wf()
                    &&& forall|s: u32| c.map_view().contains_key(s) <==> static_dom(ks, kpk, s, n)
                    &&& forall|s: u32|
                        c.map_view().contains_key(s) ==> c.map_view()[s] == built_mapping(
                            ks,
                            kpk,
                            min,
                            s,
                            n,
                        )
                    &&& c.queue_view() == free_queue_upto(ks, kpk, min, n)
                    &&& c.map_view().contains_key(XK_BACKSPACE)
                    &&& c.backspace_view() == c.map_view()[XK_BACKSPACE]
                    &&& c.modifier_map_view().map@ == modifier_keycodes@
                    &&& c.modifier_map_view().subsize == modifier_keycodes@.len() / 8
                },
                Err(CacheInitError::ZeroKeysymsPerKeycode) => keysyms_per_keycode == 0,
                Err(CacheInitError::TooManyKeycodes) => {
                    &&& keysyms_per_keycode != 0
                    &&& min_keycode + n_slots_spec(
                        keysyms@.len() as int,
                        keysyms_per_keycode as int,
                    ) > 256
                },
                Err(CacheInitError::NoBackspace) => {
                    let n = n_slots_spec(keysyms@.len() as int, keysyms_per_keycode as int);
                    &&& keysyms_per_keycode != 0
                    &&& min_keycode + n <= 256
                    &&& !static_dom(keysyms@, keysyms_per_keycode as int, XK_BACKSPACE, n)
                },
                Err(CacheInitError::EmptyModifierMap) => {
                    let n = n_slots_spec(keysyms@.len() as int, keysyms_per_keycode as int);
                    &&& keysyms_per_keycode != 0
                    &&& min_keycode + n <= 256
                    &&& static_dom(keysyms@, keysyms_per_keycode as int, XK_BACKSPACE, n)
                    &&& modifier_keycodes@.len() == 0
                },
                Err(CacheInitError::RaggedModifierMap) => {
                    let n = n_slots_spec(keysyms@.len() as int, keysyms_per_keycode as int);
                    &&& keysyms_per_keycode != 0
                    &&& min_keycode + n <= 256
                    &&& static_dom(keysyms@, keysyms_per_keycode as int, XK_BACKSPACE, n)
                    &&& modifier_keycodes@.len() > 0
                    &&& modifier_keycodes@.len() % 8 != 0
                },
            },
    {
        let ghost ks = keysyms@;
        let ghost kpkg = keysyms_per_keycode as int;
        let ghost min = min_keycode as int;
        if keysyms_per_keycode == 0 {
            return Err(CacheInitError::ZeroKeysymsPerKeycode);
        }
        let kpk = keysyms_per_keycode as usize;
        let total = keysyms.len();
        let q = total / kpk;
        if q > 256 {
            proof {
                assert(n_slots_spec(ks.len() as int, kpkg) >= q);
            }
            return Err(CacheInitError::TooManyKeycodes);
        }
        let nslots = q + if total % kpk != 0 {
            1
        } else {
            0
        };
        proof {
            assert(nslots == n_slots_spec(ks.len() as int, kpkg));
        }
        if min_keycode as usize + nslots > 256 {
            return Err(CacheInitError::TooManyKeycodes);
        }
        let mut keymap: HashMap<u32, Mapping> = HashMap::new();
        let mut queue: Vec<Mapping> = Vec::new();
        let mut i: usize = 0;
        while i < nslots
            invariant
                kpk == keysyms_per_keycode as usize,
                keysyms_per_keycode != 0,
                kpkg == kpk as int,
                min == min_keycode as int,
                ks == keysyms@,
                total == ks.len(),
                nslots == n_slots_spec(ks.len() as int, kpkg),
                min + nslots <= 256,
                0 <= i <= nslots,
                forall|s: u32| keymap@.contains_key(s) <==> static_dom(ks, kpkg, s, i as int),
                forall|s: u32|
                    keymap@.contains_key(s) ==> keymap@[s] == built_mapping(
                        ks,
                        kpkg,
                        min,
                        s,
                        i as int,
                    ),
                queue@ == free_queue_upto(ks, kpkg, min, i as int),
            decreases nslots - i,
        {
            proof {
                lemma_chunk_bounds(total as int, kpkg, i as int);
                assert(i * kpk < total);
                assert(i * kpk <= 255 * 255) by (nonlinear_arith)
                    requires
                        i <= 255 && kpk <= 255,
                ;
            }
            let start = i * kpk;
            let end = if start + kpk <= total {
                start + kpk
            } else {
                total
            };
            let ghost c = chunk(ks, kpkg, i as int);
            proof {
                assert((i as int + 1) * kpkg == i as int * kpkg + kpkg) by (nonlinear_arith);
                assert(c =~= ks.subrange(start as int, end as int));
            }
            let mut tend = end;
            while tend > start && keysyms[tend - 1] == 0
                invariant
                    start <= tend <= end,
                    end <= total,
                    total == keysyms@.len(),
                    forall|m: int| tend <= m < end ==> keysyms@[m] == 0,
                decreases tend,
            {
                tend = tend - 1;
            }
            let tlen = tend - start;
            proof {
                assert forall|j: int| tlen <= j < c.len() implies c[j] == 0 by {
                    assert(c[j] == ks[start + j]);
                }
                if tlen > 0 {
                    assert(c[tlen - 1] == ks[tend - 1]);
                }
                lemma_trim_len_exact(c, tlen as int);
                assert(trim_len(c) == tlen);
            }
            let ghost m0 = keymap@;
            let kc = (min_keycode as usize + i) as u8;
            proof {
                assert(kc == min + i);
            }
            if tlen == 0 {
                queue.push(Mapping { keycode: kc, modifiers: 0, keysym: UNUSED_KEYSYM });
            } else {
                let s0 = keysyms[start];
                proof {
                    assert(c[0] == ks[start as int]);
                }
                if s0 != 0 && s0 != 0xffff_ffffu32 {
                    let replace0 = match keymap.get(&s0) {
                        Option::None => true,
                        Option::Some(v) => v.modifiers > 0,
                    };
                    if replace0 {
                        keymap.insert(s0, Mapping { keycode: kc, modifiers: 0, keysym: s0 });
                    }
                }
                if tlen >= 2 {
                    let ghost m1 = keymap@;
                    let s1 = keysyms[start + 1];
                    proof {
                        assert(c[1] == ks[start + 1]);
                    }
                    if s1 != 0 && s1 != 0xffff_ffffu32 {
                        let replace1 = match keymap.get(&s1) {
                            Option::None => true,
                            Option::Some(v) => v.modifiers > 1,
                        };
                        if replace1 {
                            keymap.insert(s1, Mapping { keycode: kc, modifiers: 1, keysym: s1 });
                        }
                    }
                }
            }
            proof {
                let iplus = i + 1 as int;
                assert forall|s: u32| #![all_triggers] true implies {
                    &&& (keymap@.contains_key(s) <==> static_dom(ks, kpkg, s, iplus))
                    &&& (keymap@.contains_key(s) ==> keymap@[s] == built_mapping(
                        ks,
                        kpkg,
                        min,
                        s,
                        iplus,
                    ))
                } by {
                    assert(first0_upto(ks, kpkg, s, iplus) == if first0_upto(ks, kpkg, s, i as int)
                        >= 0 {
                        first0_upto(ks, kpkg, s, i as int)
                    } else if col0(ks, kpkg, i as int, s) {
                        i as int
                    } else {
                        -1
                    });
                    assert(first1_upto(ks, kpkg, s, iplus) == if first1_upto(ks, kpkg, s, i as int)
                        >= 0 {
                        first1_upto(ks, kpkg, s, i as int)
                    } else if col1(ks, kpkg, i as int, s) {
                        i as int
                    } else {
                        -1
                    });
                    assert(col0(ks, kpkg, i as int, s) ==> s == ks[i * kpkg]);
                    assert(col1(ks, kpkg, i as int, s) ==> s == ks[i * kpkg + 1]);
                }
                assert(queue@ == free_queue_upto(ks, kpkg, min, iplus));
            }
            i = i + 1;
        }
        let backspace = match keymap.get(&XK_BACKSPACE) {
            Option::Some(m) => *m,
            Option::None => {
                return Err(CacheInitError::NoBackspace);
            },
        };
        if modifier_keycodes.len() == 0 {
            return Err(CacheInitError::EmptyModifierMap);
        }
        if modifier_keycodes.len() % 8 != 0 {
            return Err(CacheInitError::RaggedModifierMap);
        }
        let subsize = modifier_keycodes.len() / 8;
        proof {
            vstd::arithmetic::div_mod::lemma_fundamental_div_mod(modifier_keycodes@.len() as int, 8);
        }
        let modifier_map = ModifierMapping { subsize, map: modifier_keycodes };
        let cache = KeyStuffingContext { keymap, custom_queue: queue, backspace, modifier_map };
        proof {
            lemma_free_queue_upto(ks, kpkg, min, nslots as int);
            assert(cache.wf());
        }
        Ok(cache)
    }

    /// Looks a key symbol up without changing anything.
    pub fn get_mapping(&self, keysym: u32) -> (r: Option<Mapping>)
        ensures
            r == if self.map_view().contains_key(keysym) {
                Some(self.map_view()[keysym])
            } else {
                None::<Mapping>
            },
    {
        match self.keymap.get(&keysym) {
            Some(m) => Some(*m),
            None => None,
        }
    }

    /// Resolves a key symbol to a mapping, assigning a free dynamic slot
    /// when no binding exists. On a rebind, the slot that has held its
    /// symbol longest (the head of the pool) is taken, its stale binding is
    /// evicted, and the slot returns to the tail of the pool bound to the
    /// new symbol; the pool never grows or shrinks.
    pub fn resolve(&mut self, keysym: u32) -> (r: ResolveOutcome)
        requires
            old(self).wf(),
            keysym != 0,
            keysym != UNUSED_KEYSYM,
        ensures
            final (self).wf(),
            final (self).backspace_view() == old(self).backspace_view(),
            final (self).modifier_map_view() == old(self).modifier_map_view(),
            match r {
                ResolveOutcome::Existing(m) => {
                    &&& old(self).map_view().contains_key(keysym)
                    &&& m == old(self).map_view()[keysym]
                    &&& final (self).map_view() == old(self).map_view()
                    &&& final (self).queue_view() == old(self).queue_view()
                },
                ResolveOutcome::Rebound(m) => {
                    &&& !old(self).map_view().contains_key(keysym)
                    &&& old(self).queue_view().len() > 0
                    &&& m == (Mapping {
                        keycode: old(self).queue_view()[0].keycode,
                        modifiers: 0,
                        keysym,
                    })
                    &&& final (self).map_view() == old(self).map_view().remove(
                        old(self).queue_view()[0].keysym,
                    ).insert(keysym, m)
                    &&& final (self).queue_view() == old(self).queue_view().subrange(
                        1,
                        old(self).queue_view().len() as int,
                    ).push(m)
                    &&& final (self).queue_view().len() == old(self).queue_view().len()
                },
                ResolveOutcome::NoFreeSlot => {
                    &&& !old(self).map_view().contains_key(keysym)
                    &&& old(self).queue_view().len() == 0
                    &&& final (self).map_view() == old(self).map_view()
                    &&& final (self).queue_view() == old(self).queue_view()
                },
            },
    {
        if let Some(m) = self.keymap.get(&keysym) {
            return ResolveOutcome::Existing(*m);
        }
        if self.custom_queue.len() == 0 {
            return ResolveOutcome::NoFreeSlot;
        }
        let slot = self.custom_queue.remove(0);
        let previous_keysym = slot.keysym;
        self.keymap.remove(&previous_keysym);
        let fresh = Mapping { keycode: slot.keycode, modifiers: 0, keysym };
        self.keymap.insert(keysym, fresh);
        self.custom_queue.push(fresh);
        proof {
            let oldq = old(self).custom_queue@;
            let oldm = old(self).keymap@;
            assert(self.custom_queue@ =~= oldq.subrange(1, oldq.len() as int).push(fresh));
            let newq = self.custom_queue@;
            let newm = self.keymap@;
            assert(newm == oldm.remove(previous_keysym).insert(keysym, fresh));
            assert(newq[newq.len() - 1] == fresh);
            assert forall|i: int|
                0 <= i < newq.len() && (#[trigger] newq[i]).keysym != UNUSED_KEYSYM implies
                newm.contains_key(newq[i].keysym) && newm[newq[i].keysym] == newq[i] by {
                if i < newq.len() - 1 {
                    let s0 = newq[i];
                    assert(s0 == oldq[i + 1]);
                    assert(oldm.contains_key(s0.keysym) && oldm[s0.keysym] == s0);
                    if s0.keysym == previous_keysym {
                        assert(oldq[0].keysym != UNUSED_KEYSYM);
                        assert(oldm[s0.keysym] == oldq[0]);
                        assert(oldq[0].keycode == s0.keycode);
                        assert(false);
                    }
                    assert(s0.keysym != keysym);
                }
            }
            assert forall|i: int, j: int|
                0 <= i < newq.len() && 0 <= j < newq.len() && i != j implies (
            #[trigger] newq[i]).keycode != (#[trigger] newq[j]).keycode by {
                let oi = if i == newq.len() - 1 {
                    0int
                } else {
                    i + 1
                };
                let oj = if j == newq.len() - 1 {
                    0int
                } else {
                    j + 1
                };
                assert(newq[i].keycode == oldq[oi].keycode);
                assert(newq[j].keycode == oldq[oj].keycode);
            }
            assert forall|i: int| 0 <= i < newq.len() implies (#[trigger] newq[i]).modifiers
                == 0 by {
                if i < newq.len() - 1 {
                    assert(newq[i] == oldq[i + 1]);
                }
            }
            assert forall|s: u32| newm.contains_key(s) implies {
                &&& (#[trigger] newm[s]).keysym == s
                &&& s != 0
                &&& s != UNUSED_KEYSYM
            } by {
                if s != keysym {
                    assert(oldm.contains_key(s) && newm[s] == oldm[s]);
                }
            }
            assert(self.wf());
        }
        ResolveOutcome::Rebound(fresh)
    }

    /// Resolves a key symbol, reporting only the mapping: `None` exactly
    /// when no binding exists and the free pool is empty. A caller that
    /// needs to know whether a host rebind is due uses `resolve` instead.
    pub fn get_or_add_mapping(&mut self, keysym: u32) -> (r: Option<Mapping>)
        requires
            old(self).wf(),
            keysym != 0,
            keysym != UNUSED_KEYSYM,
        ensures
            final (self).wf(),
            final (self).backspace_view() == old(self).backspace_view(),
            final (self).modifier_map_view() == old(self).modifier_map_view(),
            match r {
                Some(m) => {
                    &&& (if old(self).map_view().contains_key(keysym) {
                        m == old(self).map_view()[keysym] && final (self).map_view() == old(
                            self,
                        ).map_view() && final (self).queue_view() == old(self).queue_view()
                    } else {
                        &&& old(self).queue_view().len() > 0
                        &&& m == (Mapping {
                            keycode: old(self).queue_view()[0].keycode,
                            modifiers: 0,
                            keysym,
                        })
                        &&& final (self).map_view() == old(self).map_view().remove(
                            old(self).queue_view()[0].keysym,
                        ).insert(keysym, m)
                        &&& final (self).queue_view() == old(self).queue_view().subrange(
                            1,
                            old(self).queue_view().len() as int,
                        ).push(m)
                    })
                },
                None => {
                    &&& !old(self).map_view().contains_key(keysym)
                    &&& old(self).queue_view().len() == 0
                    &&& final (self).map_view() == old(self).map_view()
                    &&& final (self).queue_view() == old(self).queue_view()
                },
            },
    {
        match self.resolve(keysym) {
            ResolveOutcome::Existing(m) => Some(m),
            ResolveOutcome::Rebound(m) => Some(m),
            ResolveOutcome::NoFreeSlot => None,
        }
    }

    /// Builds the event sequence that types one key: the set modifier bits
    /// pressed low to high, the key pressed and released, then the modifiers
    /// released in reverse order.
    pub fn keycode_events(&self, keycode: u8, modifiers: u16) -> (r: Vec<KeyEvent>)
        requires
            self.wf(),
        ensures
            r@ == keycode_events_spec(keycode, modifiers, self.modifier_map_view()),
            balanced(r@),
    {
        let ghost mm = self.modifier_map;
        let mut r: Vec<KeyEvent> = Vec::new();
        let mut i: usize = 0;
        while i < 8
            invariant
                self.wf(),
                mm == self.modifier_map,
                i <= 8,
                r@ + mods_down(modifiers, mm, i as int) == mods_down(modifiers, mm, 0),
            decreases 8 - i,
        {
            let mask: u16 = if i == 0 {
                1
            } else if i == 1 {
                2
            } else if i == 2 {
                4
            } else if i == 3 {
                8
            } else if i == 4 {
                16
            } else if i == 5 {
                32
            } else if i == 6 {
                64
            } else {
                128
            };
            let ghost before = r@;
            if modifiers / mask % 2 == 1 {
                r.push(KeyEvent { press: true, keycode: self.modifier_map.keycode(i) });
                proof {
                    assert(mod_bit(modifiers, i as int));
                    assert(mods_down(modifiers, mm, i as int) == seq![
                        KeyEvent { press: true, keycode: mm.spec_keycode(i as int) },
                    ] + mods_down(modifiers, mm, i + 1));
                    assert(r@ + mods_down(modifiers, mm, i + 1) =~= before + mods_down(
                        modifiers,
                        mm,
                        i as int,
                    ));
                }
            } else {
                proof {
                    assert(!mod_bit(modifiers, i as int));
                    assert(mods_down(modifiers, mm, i as int) == Seq::<KeyEvent>::empty()
                        + mods_down(modifiers, mm, i + 1));
                    assert(Seq::<KeyEvent>::empty() + mods_down(modifiers, mm, i + 1) =~= mods_down(
                        modifiers,
                        mm,
                        i + 1,
                    ));
                }
            }
            i = i + 1;
        }
        proof {
            assert(mods_down(modifiers, mm, 8) =~= Seq::<KeyEvent>::empty());
            assert(r@ + mods_down(modifiers, mm, 8) =~= r@);
        }
        r.push(KeyEvent { press: true, keycode });
        r.push(KeyEvent { press: false, keycode });
        let ghost mid = r@;
        proof {
            assert(mid =~= mods_down(modifiers, mm, 0) + seq![
                KeyEvent { press: true, keycode },
                KeyEvent { press: false, keycode },
            ]);
        }
        let mut j: usize = 8;
        while j > 0
            invariant
                self.wf(),
                mm == self.modifier_map,
                j <= 8,
                r@ + mods_up(modifiers, mm, j as int - 1) == mid + mods_up(modifiers, mm, 7),
            decreases j,
        {
            let i = j - 1;
            let mask: u16 = if i == 0 {
                1
            } else if i == 1 {
                2
            } else if i == 2 {
                4
            } else if i == 3 {
                8
            } else if i == 4 {
                16
            } else if i == 5 {
                32
            } else if i == 6 {
                64
            } else {
                128
            };
            let ghost before = r@;
            if modifiers / mask % 2 == 1 {
                r.push(KeyEvent { press: false, keycode: self.modifier_map.keycode(i) });
                proof {
                    assert(mod_bit(modifiers, i as int));
                    assert(mods_up(modifiers, mm, i as int) == seq![
                        KeyEvent { press: false, keycode: mm.spec_keycode(i as int) },
                    ] + mods_up(modifiers, mm, i as int - 1));
                    assert(r@ + mods_up(modifiers, mm, i as int - 1) =~= before + mods_up(
                        modifiers,
                        mm,
                        i as int,
                    ));
                }
            } else {
                proof {
                    assert(!mod_bit(modifiers, i as int));
                    assert(mods_up(modifiers, mm, i as int) == Seq::<KeyEvent>::empty() + mods_up(
                        modifiers,
                        mm,
                        i as int - 1,
                    ));
                    assert(Seq::<KeyEvent>::empty() + mods_up(modifiers, mm, i as int - 1)
                        =~= mods_up(modifiers, mm, i as int - 1));
                }
            }
            j = j - 1;
        }
        proof {
            assert(mods_up(modifiers, mm, -1) =~= Seq::<KeyEvent>::empty());
            assert(r@ + mods_up(modifiers, mm, -1) =~= r@);
            lemma_keycode_events_balanced(keycode, modifiers, mm);
        }
        r
    }

    /// One emission: resolves the key symbol and, on the press edge only,
    /// plans the events that type it — so every emission's event sequence is
    /// balanced, and a release edge plans nothing.
    pub fn emit(&mut self, keysym: u32, pressed: bool) -> (r: Option<Emission>)
        requires
            old(self).wf(),
            keysym != 0,
            keysym != UNUSED_KEYSYM,
        ensures
            final (self).wf(),
            match r {
                Some(em) => {
                    &&& em.mapping.keysym == keysym
                    &&& (if old(self).map_view().contains_key(keysym) {
                        em.mapping == old(self).map_view()[keysym] && em.rebind is None && final (
                        self).map_view() == old(self).map_view() && final (self).queue_view() == old(
                            self,
                        ).queue_view()
                    } else {
                        &&& old(self).queue_view().len() > 0
                        &&& em.mapping == (Mapping {
                            keycode: old(self).queue_view()[0].keycode,
                            modifiers: 0,
                            keysym,
                        })
                        &&& em.rebind == Some(
                            Rebind { keycode: em.mapping.keycode, keysym },
                        )
                        &&& final (self).map_view() == old(self).map_view().remove(
                            old(self).queue_view()[0].keysym,
                        ).insert(keysym, em.mapping)
                        &&& final (self).queue_view() == old(self).queue_view().subrange(
                            1,
                            old(self).queue_view().len() as int,
                        ).push(em.mapping)
                    })
                    &&& em.events@ == if pressed {
                        keycode_events_spec(
                            em.mapping.keycode,
                            em.mapping.modifiers,
                            old(self).modifier_map_view(),
                        )
                    } else {
                        Seq::<KeyEvent>::empty()
                    }
                    &&& balanced(em.events@)
                },
                None => {
                    &&& !old(self).map_view().contains_key(keysym)
                    &&& old(self).queue_view().len() == 0
                    &&& final (self).map_view() == old(self).map_view()
                    &&& final (self).queue_view() == old(self).queue_view()
                },
            },
    {
        let outcome = self.resolve(keysym);
        let mapping = match outcome {
            ResolveOutcome::Existing(m) => m,
            ResolveOutcome::Rebound(m) => m,
            ResolveOutcome::NoFreeSlot => {
                return None;
            },
        };
        let rebind = match outcome {
            ResolveOutcome::Rebound(m) => Some(Rebind { keycode: m.keycode, keysym }),
            _ => None,
        };
        let events = if pressed {
            self.keycode_events(mapping.keycode, mapping.modifiers)
        } else {
            Vec::new()
        };
        proof {
            if !pressed {
                assert(balanced(events@)) by {
                    assert forall|kc: u8|
                        count_events(events@, kc, true) == count_events(events@, kc, false) by {}
                }
            }
        }
        Some(Emission { mapping, rebind, events })
    }

    /// The key symbols currently bound through a dynamic slot.
    pub open spec fn dynamic_syms(self) -> Set<u32> {
        Set::new(
            |s: u32|
                s != UNUSED_KEYSYM && exists|i: int|
                    0 <= i < self.queue_view().len() && (#[trigger] self.queue_view()[i]).keysym
                        == s,
        )
    }

    /// Cache bound law: the cache never holds more live dynamic bindings
    /// than it has dynamic slots — the free pool's size, which never
    /// changes.
    pub proof fn lemma_cache_bound(self)
        requires
            self.wf(),
        ensures
            self.dynamic_syms().finite(),
            self.dynamic_syms().len() <= self.queue_view().len(),
    {
        let syms = self.queue_view().map_values(|m: Mapping| m.keysym);
        assert(self.dynamic_syms() <= syms.to_set()) by {
            assert forall|s: u32| self.dynamic_syms().contains(s) implies syms.to_set().contains(
                s,
            ) by {
                let i = choose|i: int|
                    0 <= i < self.queue_view().len() && (#[trigger] self.queue_view()[i]).keysym
                        == s;
                assert(syms[i] == s);
            }
        }
        syms.lemma_cardinality_of_set();
        broadcast use vstd::seq_lib::seq_to_set_is_finite;

        vstd::set_lib::lemma_len_subset(self.dynamic_syms(), syms.to_set());
    }
}

} // verus!

//! Character encoding: mapping a character to either a virtual-key press
//! (with an optional Shift requirement) or a Unicode fallback event pair.
//!
//! A keyboard layout is held as explicit data: a list of entries, each
//! resolving one character to a virtual-key code and a shift flag. The
//! platform backend fills this table (or leaves it empty where no layout
//! query exists); encoding itself is pure and total — a character the layout
//! cannot resolve always becomes a Unicode fallback, never a failure.

use vstd::prelude::*;

verus! {

/// Virtual-key code of the Shift modifier key.
pub const VK_SHIFT: u16 = 0x10;

/// Virtual-key code of the Return (Enter) key.
pub const VK_RETURN: u16 = 0x0D;

/// One keyboard-layout mapping: a character resolved to a virtual key,
/// together with whether Shift must be held to produce it.
#[derive(Clone, Copy, PartialEq, Eq, Structural, Debug)]
pub struct LayoutEntry {
    /// The character this entry resolves.
    pub ch: char,
    /// The virtual-key code that produces the character.
    pub vk: u16,
    /// Whether Shift must be held while pressing the key.
    pub needs_shift: bool,
}

/// A keyboard layout: the set of characters the platform can direct-map,
/// in lookup order. The first entry for a character wins.
pub struct KeyboardLayout {
    /// The mapping entries, scanned front to back.
    pub entries: Vec<LayoutEntry>,
}

/// How one character is to be produced: a native key press or a raw
/// Unicode event pair. Produced per character and consumed immediately.
#[derive(Clone, Copy, PartialEq, Eq, Structural, Debug)]
pub enum CharacterEncoding {
    /// The character has a native key: press `vk`, holding Shift if asked.
    DirectKey { vk: u16, needs_shift: bool },
    /// No native key: emit the code point as a Unicode scan event pair.
    UnicodeFallback { codepoint: u32 },
}

/// The first layout entry that resolves `c`, scanning front to back.
pub open spec fn spec_lookup(entries: Seq<LayoutEntry>, c: char) -> Option<LayoutEntry>
    decreases entries.len(),
{
    if entries.len() == 0 {
        None
    } else if entries[0].ch == c {
        Some(entries[0])
    } else {
        spec_lookup(entries.drop_first(), c)
    }
}

/// What `encode` returns: the first matching layout entry as a direct key,
/// or the character's code point as a Unicode fallback.
pub open spec fn spec_encode(entries: Seq<LayoutEntry>, c: char) -> CharacterEncoding {
    match spec_lookup(entries, c) {
        Some(e) => CharacterEncoding::DirectKey { vk: e.vk, needs_shift: e.needs_shift },
        None => CharacterEncoding::UnicodeFallback { codepoint: c as u32 },
    }
}

/// Scanning from index `i` onward equals the recursive lookup on the
/// remaining suffix, provided no entry before `i` matches.
proof fn lemma_lookup_skip(entries: Seq<LayoutEntry>, c: char, i: int)
    requires
        0 <= i <= entries.len(),
        forall|j: int| 0 <= j < i ==> entries[j].ch != c,
    ensures
        spec_lookup(entries, c) == spec_lookup(entries.skip(i), c),
    decreases i,
{
    if i > 0 {
        assert(entries.skip(1) =~= entries.drop_first());
        lemma_lookup_skip(entries.drop_first(), c, i - 1);
        assert(entries.drop_first().skip(i - 1) =~= entries.skip(i));
    } else {
        assert(entries.skip(0) =~= entries);
    }
}

impl KeyboardLayout {
    /// A layout with no entries: every character falls back to Unicode events.
    pub fn empty() -> (r: KeyboardLayout)
        ensures
            r.entries@.len() == 0,
    {
        KeyboardLayout { entries: Vec::new() }
    }

    /// Find the first entry that resolves `c`, if the layout has one.
    pub fn lookup(&self, c: char) -> (r: Option<LayoutEntry>)
        ensures
            r == spec_lookup(self.entries@, c),
    {
        let n = self.entries.len();
        for i in 0..n
            invariant
                n == self.entries@.len(),
                forall|j: int| 0 <= j < i ==> self.entries@[j].ch != c,
        {
            let e = self.entries[i];
            if e.ch == c {
                proof {
                    lemma_lookup_skip(self.entries@, c, i as int);
                    assert(self.entries@.skip(i as int)[0] == e);
                }
                return Some(e);
            }
        }
        proof {
            lemma_lookup_skip(self.entries@, c, n as int);
            assert(self.entries@.skip(n as int) =~= Seq::<LayoutEntry>::empty());
        }
        None
    }
}

/// Encode one character against a layout: the first matching entry becomes a
/// direct key press; a character with no entry becomes a Unicode fallback.
/// Total over all characters, and deterministic for a fixed layout: the
/// result is pinned to `spec_encode`, a function of the two arguments alone.
pub fn encode(layout: &KeyboardLayout, c: char) -> (r: CharacterEncoding)
    ensures
        r == spec_encode(layout.entries@, c),
{
    match layout.lookup(c) {
        Some(e) => CharacterEncoding::DirectKey { vk: e.vk, needs_shift: e.needs_shift },
        None => CharacterEncoding::UnicodeFallback { codepoint: c as u32 },
    }
}

/// A successful lookup returns an entry of the layout that resolves `c`.
pub proof fn lemma_lookup_contains(entries: Seq<LayoutEntry>, c: char)
    ensures
        match spec_lookup(entries, c) {
            Some(e) => entries.contains(e) && e.ch == c,
            None => true,
        },
    decreases entries.len(),
{
    if entries.len() > 0 && entries[0].ch != c {
        lemma_lookup_contains(entries.drop_first(), c);
        match spec_lookup(entries.drop_first(), c) {
            Some(e) => {
                let i = choose|i: int|
                    0 <= i < entries.drop_first().len() && entries.drop_first()[i] == e;
                assert(entries[i + 1] == e);
            },
            None => {},
        }
    }
}

/// Encoding is total over all characters: where no layout entry resolves
/// `c`, the result is the Unicode fallback for its code point — never an
/// error and never an absent value.
pub proof fn lemma_encode_total(entries: Seq<LayoutEntry>, c: char)
    requires
        forall|i: int| 0 <= i < entries.len() ==> entries[i].ch != c,
    ensures
        spec_encode(entries, c) == (CharacterEncoding::UnicodeFallback {
            codepoint: c as u32,
        }),
    decreases entries.len(),
{
    if entries.len() > 0 {
        lemma_encode_total(entries.drop_first(), c);
    }
}

/// Encoding is deterministic: for one layout, the decision for a character
/// that the layout direct-maps is exactly the first matching entry's
/// virtual key and shift flag, on every call.
pub proof fn lemma_encode_first_entry_wins(entries: Seq<LayoutEntry>, c: char, i: int)
    requires
        0 <= i < entries.len(),
        entries[i].ch == c,
        forall|j: int| 0 <= j < i ==> entries[j].ch != c,
    ensures
        spec_encode(entries, c) == (CharacterEncoding::DirectKey {
            vk: entries[i].vk,
            needs_shift: entries[i].needs_shift,
        }),
{
    lemma_lookup_skip(entries, c, i);
    assert(entries.skip(i)[0] == entries[i]);
}

} // verus!

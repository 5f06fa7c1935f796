//! The key-bracketing discipline of event plans.
//!
//! Invariant of the data model: every key-down event for a given virtual key
//! or Unicode scan value is followed by a matching key-up before the next
//! character begins; modifier keys may be held across a bracketed
//! sub-sequence (Shift around a single keyed character, or around the
//! chat-open hotkey), but no key is ever down twice at once. This module
//! states that discipline as [`balanced`] and proves it of every plan the
//! library builds.

use vstd::prelude::*;

use crate::encoder::{
    spec_encode, CharacterEncoding, LayoutEntry, VK_SHIFT,
};
use crate::events::{
    char_actions, open_chat_actions, press_key_actions, send_line_actions, text_actions,
    InputAction,
};

verus! {

/// Identity of one pressable thing: a virtual key, or a raw Unicode code
/// point sent as a fallback event.
#[derive(Clone, Copy, PartialEq, Eq, Structural, Debug)]
pub enum KeyId {
    /// A virtual-key code.
    Virtual(u16),
    /// A Unicode code point sent as a fallback scan event.
    Code(u32),
}

/// How one action changes the held state of key `k`: +1 for its down event,
/// -1 for its up event, 0 for everything else.
pub open spec fn delta(a: InputAction, k: KeyId) -> int {
    match a {
        InputAction::KeyDown(vk) => if k == KeyId::Virtual(vk) { 1int } else { 0 },
        InputAction::KeyUp(vk) => if k == KeyId::Virtual(vk) { -1int } else { 0 },
        InputAction::UnicodeDown(cp) => if k == KeyId::Code(cp) { 1int } else { 0 },
        InputAction::UnicodeUp(cp) => if k == KeyId::Code(cp) { -1int } else { 0 },
        InputAction::SleepMs(_) => 0,
    }
}

/// The number of unmatched down events for key `k` after performing `s`.
pub open spec fn net(s: Seq<InputAction>, k: KeyId) -> int
    decreases s.len(),
{
    if s.len() == 0 {
        0
    } else {
        net(s.drop_last(), k) + delta(s.last(), k)
    }
}

/// Key `k` is properly bracketed throughout `s`: after every prefix it is
/// either up (0 outstanding downs) or held exactly once (1) — never released
/// while up, and never pressed twice without an intervening release.
pub open spec fn bracketed(s: Seq<InputAction>, k: KeyId) -> bool
    decreases s.len(),
{
    if s.len() == 0 {
        true
    } else {
        bracketed(s.drop_last(), k) && 0 <= net(s, k) <= 1
    }
}

/// Every key is properly bracketed throughout the plan and released by its
/// end: no two down events for the same key are ever outstanding at once,
/// and every down has its matching up.
pub open spec fn balanced(s: Seq<InputAction>) -> bool {
    forall|k: KeyId|
        #![trigger bracketed(s, k)]
        #![trigger net(s, k)]
        bracketed(s, k) && net(s, k) == 0
}

/// An encoding whose events keep Shift properly bracketed: a direct key that
/// needs Shift held may not itself be the Shift key.
pub open spec fn encoding_wf(e: CharacterEncoding) -> bool {
    match e {
        CharacterEncoding::DirectKey { vk, needs_shift } => !(needs_shift && vk == VK_SHIFT),
        CharacterEncoding::UnicodeFallback { .. } => true,
    }
}

/// A layout none of whose entries maps a character to Shift-plus-Shift.
pub open spec fn layout_entries_wf(entries: Seq<LayoutEntry>) -> bool {
    forall|i: int|
        0 <= i < entries.len() ==> !((#[trigger] entries[i]).needs_shift && entries[i].vk
            == VK_SHIFT)
}

/// Whether every entry of a layout keeps Shift bracketable: the premise of
/// the bracketing law, checkable on a layout a platform handed in.
pub fn layout_is_wf(layout: &crate::encoder::KeyboardLayout) -> (r: bool)
    ensures
        r == layout_entries_wf(layout.entries@),
{
    let n = layout.entries.len();
    for i in 0..n
        invariant
            n == layout.entries@.len(),
            forall|j: int|
                0 <= j < i ==> !((#[trigger] layout.entries@[j]).needs_shift
                    && layout.entries@[j].vk == VK_SHIFT),
    {
        let e = layout.entries[i];
        if e.needs_shift && e.vk == VK_SHIFT {
            return false;
        }
    }
    true
}

proof fn lemma_net_push(s: Seq<InputAction>, a: InputAction, k: KeyId)
    ensures
        net(s.push(a), k) == net(s, k) + delta(a, k),
{
    assert(s.push(a).drop_last() =~= s);
    assert(s.push(a).last() == a);
}

proof fn lemma_bracketed_push(s: Seq<InputAction>, a: InputAction, k: KeyId)
    requires
        bracketed(s, k),
        0 <= net(s, k) + delta(a, k) <= 1,
    ensures
        bracketed(s.push(a), k),
        net(s.push(a), k) == net(s, k) + delta(a, k),
{
    lemma_net_push(s, a, k);
    assert(s.push(a).drop_last() =~= s);
}

proof fn lemma_net_concat(a: Seq<InputAction>, b: Seq<InputAction>, k: KeyId)
    ensures
        net(a + b, k) == net(a, k) + net(b, k),
    decreases b.len(),
{
    if b.len() == 0 {
        assert(a + b =~= a);
    } else {
        assert((a + b).drop_last() =~= a + b.drop_last());
        assert((a + b).last() == b.last());
        lemma_net_concat(a, b.drop_last(), k);
    }
}

proof fn lemma_bracketed_concat(a: Seq<InputAction>, b: Seq<InputAction>, k: KeyId)
    requires
        bracketed(a, k),
        net(a, k) == 0,
        bracketed(b, k),
    ensures
        bracketed(a + b, k),
        net(a + b, k) == net(b, k),
    decreases b.len(),
{
    lemma_net_concat(a, b, k);
    if b.len() == 0 {
        assert(a + b =~= a);
    } else {
        assert((a + b).drop_last() =~= a + b.drop_last());
        lemma_bracketed_concat(a, b.drop_last(), k);
        lemma_net_concat(a, b.drop_last(), k);
    }
}

/// Two plans that each leave every key released compose into one that does.
pub proof fn lemma_balanced_concat(a: Seq<InputAction>, b: Seq<InputAction>)
    requires
        balanced(a),
        balanced(b),
    ensures
        balanced(a + b),
{
    assert forall|k: KeyId|
        #![trigger bracketed(a + b, k)]
        #![trigger net(a + b, k)]
        bracketed(a + b, k) && net(a + b, k) == 0 by {
        assert(bracketed(a, k) && net(a, k) == 0);
        assert(bracketed(b, k) && net(b, k) == 0);
        lemma_bracketed_concat(a, b, k);
    }
}

proof fn lemma_press_key_bracketed(vk: u16, k: KeyId)
    ensures
        bracketed(press_key_actions(vk), k),
        net(press_key_actions(vk), k) == 0,
{
    let e0 = Seq::<InputAction>::empty();
    let e1 = e0.push(InputAction::KeyDown(vk));
    let e2 = e1.push(InputAction::SleepMs(crate::config::KEY_PRESS_DELAY_MS));
    let e3 = e2.push(InputAction::KeyUp(vk));
    lemma_bracketed_push(e0, InputAction::KeyDown(vk), k);
    lemma_bracketed_push(e1, InputAction::SleepMs(crate::config::KEY_PRESS_DELAY_MS), k);
    lemma_bracketed_push(e2, InputAction::KeyUp(vk), k);
    assert(press_key_actions(vk) =~= e3);
}

/// A single key press leaves every key released and never double-presses.
pub proof fn lemma_press_key_balanced(vk: u16)
    ensures
        balanced(press_key_actions(vk)),
{
    assert forall|k: KeyId|
        #![trigger bracketed(press_key_actions(vk), k)]
        #![trigger net(press_key_actions(vk), k)]
        bracketed(press_key_actions(vk), k) && net(press_key_actions(vk), k) == 0 by {
        lemma_press_key_bracketed(vk, k);
    }
}

proof fn lemma_char_bracketed(e: CharacterEncoding, k: KeyId)
    requires
        encoding_wf(e),
    ensures
        bracketed(char_actions(e), k),
        net(char_actions(e), k) == 0,
{
    match e {
        CharacterEncoding::DirectKey { vk, needs_shift } => {
            if needs_shift {
                let s0 = Seq::<InputAction>::empty();
                let s1 = s0.push(InputAction::KeyDown(VK_SHIFT));
                let s2 = s1.push(InputAction::SleepMs(crate::config::SHIFT_KEY_DELAY_MS));
                lemma_bracketed_push(s0, InputAction::KeyDown(VK_SHIFT), k);
                lemma_bracketed_push(s1, InputAction::SleepMs(crate::config::SHIFT_KEY_DELAY_MS), k);
                let p0 = s2.push(InputAction::KeyDown(vk));
                let p1 = p0.push(InputAction::SleepMs(crate::config::KEY_PRESS_DELAY_MS));
                let p2 = p1.push(InputAction::KeyUp(vk));
                lemma_bracketed_push(s2, InputAction::KeyDown(vk), k);
                lemma_bracketed_push(p0, InputAction::SleepMs(crate::config::KEY_PRESS_DELAY_MS), k);
                lemma_bracketed_push(p1, InputAction::KeyUp(vk), k);
                let t0 = p2.push(InputAction::SleepMs(crate::config::SHIFT_KEY_DELAY_MS));
                let t1 = t0.push(InputAction::KeyUp(VK_SHIFT));
                let t2 = t1.push(InputAction::SleepMs(crate::config::CHAR_TYPE_DELAY_MS));
                lemma_bracketed_push(p2, InputAction::SleepMs(crate::config::SHIFT_KEY_DELAY_MS), k);
                lemma_bracketed_push(t0, InputAction::KeyUp(VK_SHIFT), k);
                lemma_bracketed_push(t1, InputAction::SleepMs(crate::config::CHAR_TYPE_DELAY_MS), k);
                assert(char_actions(e) =~= t2);
            } else {
                lemma_press_key_bracketed(vk, k);
                let s = press_key_actions(vk);
                lemma_bracketed_push(s, InputAction::SleepMs(crate::config::CHAR_TYPE_DELAY_MS), k);
                assert(char_actions(e) =~= s.push(
                    InputAction::SleepMs(crate::config::CHAR_TYPE_DELAY_MS),
                ));
            }
        },
        CharacterEncoding::UnicodeFallback { codepoint } => {
            let s0 = Seq::<InputAction>::empty();
            let s1 = s0.push(InputAction::UnicodeDown(codepoint));
            let s2 = s1.push(InputAction::SleepMs(crate::config::UNICODE_KEY_DELAY_MS));
            let s3 = s2.push(InputAction::UnicodeUp(codepoint));
            let s4 = s3.push(InputAction::SleepMs(crate::config::CHAR_TYPE_DELAY_MS));
            lemma_bracketed_push(s0, InputAction::UnicodeDown(codepoint), k);
            lemma_bracketed_push(s1, InputAction::SleepMs(crate::config::UNICODE_KEY_DELAY_MS), k);
            lemma_bracketed_push(s2, InputAction::UnicodeUp(codepoint), k);
            lemma_bracketed_push(s3, InputAction::SleepMs(crate::config::CHAR_TYPE_DELAY_MS), k);
            assert(char_actions(e) =~= s4);
        },
    }
}

/// The events of one encoded character keep every key bracketed and leave
/// every key released, provided the encoding does not ask Shift to bracket
/// itself.
pub proof fn lemma_char_actions_balanced(e: CharacterEncoding)
    requires
        encoding_wf(e),
    ensures
        balanced(char_actions(e)),
{
    assert forall|k: KeyId|
        #![trigger bracketed(char_actions(e), k)]
        #![trigger net(char_actions(e), k)]
        bracketed(char_actions(e), k) && net(char_actions(e), k) == 0 by {
        lemma_char_bracketed(e, k);
    }
}

/// A well-formed layout never encodes a character into Shift-plus-Shift.
pub proof fn lemma_encode_wf(entries: Seq<LayoutEntry>, c: char)
    requires
        layout_entries_wf(entries),
    ensures
        encoding_wf(spec_encode(entries, c)),
{
    crate::encoder::lemma_lookup_contains(entries, c);
    match crate::encoder::spec_lookup(entries, c) {
        Some(e) => {
            let i = choose|i: int| 0 <= i < entries.len() && entries[i] == e;
            assert(!(entries[i].needs_shift && entries[i].vk == VK_SHIFT));
        },
        None => {},
    }
}

/// Typing any text against a well-formed layout keeps every key bracketed
/// and leaves every key released.
pub proof fn lemma_text_actions_balanced(entries: Seq<LayoutEntry>, text: Seq<char>)
    requires
        layout_entries_wf(entries),
    ensures
        balanced(text_actions(entries, text)),
    decreases text.len(),
{
    if text.len() == 0 {
        assert forall|k: KeyId|
            #![trigger bracketed(text_actions(entries, text), k)]
            #![trigger net(text_actions(entries, text), k)]
            bracketed(text_actions(entries, text), k) && net(text_actions(entries, text), k)
                == 0 by {}
    } else {
        lemma_encode_wf(entries, text[0]);
        lemma_char_actions_balanced(spec_encode(entries, text[0]));
        lemma_text_actions_balanced(entries, text.drop_first());
        lemma_balanced_concat(
            char_actions(spec_encode(entries, text[0])),
            text_actions(entries, text.drop_first()),
        );
    }
}

proof fn lemma_open_chat_bracketed(k: KeyId)
    ensures
        bracketed(open_chat_actions(), k),
        net(open_chat_actions(), k) == 0,
{
    let s0 = Seq::<InputAction>::empty();
    let s1 = s0.push(InputAction::KeyDown(VK_SHIFT));
    let s2 = s1.push(InputAction::SleepMs(crate::config::SHIFT_KEY_DELAY_MS));
    let s3 = s2.push(InputAction::KeyDown(crate::encoder::VK_RETURN));
    let s4 = s3.push(InputAction::SleepMs(crate::config::KEY_PRESS_DELAY_MS));
    let s5 = s4.push(InputAction::KeyUp(crate::encoder::VK_RETURN));
    let s6 = s5.push(InputAction::SleepMs(crate::config::SHIFT_KEY_DELAY_MS));
    let s7 = s6.push(InputAction::KeyUp(VK_SHIFT));
    lemma_bracketed_push(s0, InputAction::KeyDown(VK_SHIFT), k);
    lemma_bracketed_push(s1, InputAction::SleepMs(crate::config::SHIFT_KEY_DELAY_MS), k);
    lemma_bracketed_push(s2, InputAction::KeyDown(crate::encoder::VK_RETURN), k);
    lemma_bracketed_push(s3, InputAction::SleepMs(crate::config::KEY_PRESS_DELAY_MS), k);
    lemma_bracketed_push(s4, InputAction::KeyUp(crate::encoder::VK_RETURN), k);
    lemma_bracketed_push(s5, InputAction::SleepMs(crate::config::SHIFT_KEY_DELAY_MS), k);
    lemma_bracketed_push(s6, InputAction::KeyUp(VK_SHIFT), k);
    assert(open_chat_actions() =~= s7);
}

/// The chat-open hotkey holds Shift exactly once around one Enter press and
/// releases everything it pressed.
pub proof fn lemma_open_chat_balanced()
    ensures
        balanced(open_chat_actions()),
{
    assert forall|k: KeyId|
        #![trigger bracketed(open_chat_actions(), k)]
        #![trigger net(open_chat_actions(), k)]
        bracketed(open_chat_actions(), k) && net(open_chat_actions(), k) == 0 by {
        lemma_open_chat_bracketed(k);
    }
}

proof fn lemma_sleep_balanced(ms: u64)
    ensures
        balanced(seq![InputAction::SleepMs(ms)]),
{
    assert forall|k: KeyId|
        #![trigger bracketed(seq![InputAction::SleepMs(ms)], k)]
        #![trigger net(seq![InputAction::SleepMs(ms)], k)]
        bracketed(seq![InputAction::SleepMs(ms)], k) && net(seq![InputAction::SleepMs(ms)], k)
            == 0 by {
        let s0 = Seq::<InputAction>::empty();
        lemma_bracketed_push(s0, InputAction::SleepMs(ms), k);
        assert(seq![InputAction::SleepMs(ms)] =~= s0.push(InputAction::SleepMs(ms)));
    }
}

/// The whole plan for one line keeps every key bracketed and leaves every
/// key released: no two down events for the same key are ever outstanding
/// at once, except the documented Shift-held bracketings, and each down has
/// its matching up before the plan ends.
pub proof fn lemma_send_line_actions_balanced(entries: Seq<LayoutEntry>, text: Seq<char>)
    requires
        layout_entries_wf(entries),
    ensures
        balanced(send_line_actions(entries, text)),
{
    let a1 = seq![InputAction::SleepMs(crate::config::FOCUS_DELAY_MS)];
    let a2 = open_chat_actions();
    let a3 = seq![InputAction::SleepMs(crate::config::CHAT_OPEN_DELAY_MS)];
    let a4 = text_actions(entries, text);
    let a5 = seq![InputAction::SleepMs(crate::config::AFTER_TYPE_DELAY_MS)];
    let a6 = press_key_actions(crate::encoder::VK_RETURN);
    let a7 = seq![InputAction::SleepMs(crate::config::AFTER_SEND_DELAY_MS)];
    lemma_sleep_balanced(crate::config::FOCUS_DELAY_MS);
    lemma_open_chat_balanced();
    lemma_sleep_balanced(crate::config::CHAT_OPEN_DELAY_MS);
    lemma_text_actions_balanced(entries, text);
    lemma_sleep_balanced(crate::config::AFTER_TYPE_DELAY_MS);
    lemma_press_key_balanced(crate::encoder::VK_RETURN);
    lemma_sleep_balanced(crate::config::AFTER_SEND_DELAY_MS);
    lemma_balanced_concat(a1, a2);
    lemma_balanced_concat(a1 + a2, a3);
    lemma_balanced_concat(a1 + a2 + a3, a4);
    lemma_balanced_concat(a1 + a2 + a3 + a4, a5);
    lemma_balanced_concat(a1 + a2 + a3 + a4 + a5, a6);
    lemma_balanced_concat(a1 + a2 + a3 + a4 + a5 + a6, a7);
    assert(send_line_actions(entries, text) == a1 + a2 + a3 + a4 + a5 + a6 + a7);
}

} // verus!

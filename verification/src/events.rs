//! Key-event plans: the exact sequence of key-down/key-up events and fixed
//! delays that typing a message requires.
//!
//! Nothing here touches the platform. A plan is a list of [`InputAction`]
//! values; the binary's performer walks the list, posting each event to the
//! system input queue and sleeping for each delay. Every plan is pinned by a
//! spec function, so the order of downs, ups and pauses — the part the target
//! application is sensitive to — is fixed by contract, not by convention.

use vstd::prelude::*;

use crate::config::{
    AFTER_SEND_DELAY_MS, AFTER_TYPE_DELAY_MS, CHAR_TYPE_DELAY_MS, CHAT_OPEN_DELAY_MS,
    FOCUS_DELAY_MS, KEY_PRESS_DELAY_MS, SHIFT_KEY_DELAY_MS, UNICODE_KEY_DELAY_MS,
};
use crate::encoder::{
    spec_encode, CharacterEncoding, KeyboardLayout, LayoutEntry, VK_RETURN, VK_SHIFT,
};

verus! {

/// One primitive step of a typing plan: a synthetic key event posted to the
/// system input queue, or a fixed blocking pause between events.
#[derive(Clone, Copy, PartialEq, Eq, Structural, Debug)]
pub enum InputAction {
    /// Press (and hold) the virtual key.
    KeyDown(u16),
    /// Release the virtual key.
    KeyUp(u16),
    /// Press a raw Unicode code point, bypassing layout mapping.
    UnicodeDown(u32),
    /// Release a raw Unicode code point.
    UnicodeUp(u32),
    /// Block for the given number of milliseconds before the next event.
    SleepMs(u64),
}

/// A complete key press: down, a fixed dwell, up. The dwell is needed
/// because many targets poll input state rather than trust event timestamps,
/// and a zero-length press is frequently dropped.
pub open spec fn press_key_actions(vk: u16) -> Seq<InputAction> {
    seq![
        InputAction::KeyDown(vk),
        InputAction::SleepMs(KEY_PRESS_DELAY_MS),
        InputAction::KeyUp(vk),
    ]
}

/// The events for one encoded character: a direct key press, bracketed in a
/// held Shift where the layout asks for it, or a Unicode event pair; either
/// way followed by the inter-character pacing delay.
pub open spec fn char_actions(e: CharacterEncoding) -> Seq<InputAction> {
    match e {
        CharacterEncoding::DirectKey { vk, needs_shift } => {
            if needs_shift {
                seq![
                    InputAction::KeyDown(VK_SHIFT),
                    InputAction::SleepMs(SHIFT_KEY_DELAY_MS),
                ] + press_key_actions(vk) + seq![
                    InputAction::SleepMs(SHIFT_KEY_DELAY_MS),
                    InputAction::KeyUp(VK_SHIFT),
                    InputAction::SleepMs(CHAR_TYPE_DELAY_MS),
                ]
            } else {
                press_key_actions(vk) + seq![InputAction::SleepMs(CHAR_TYPE_DELAY_MS)]
            }
        },
        CharacterEncoding::UnicodeFallback { codepoint } => {
            seq![
                InputAction::UnicodeDown(codepoint),
                InputAction::SleepMs(UNICODE_KEY_DELAY_MS),
                InputAction::UnicodeUp(codepoint),
                InputAction::SleepMs(CHAR_TYPE_DELAY_MS),
            ]
        },
    }
}

/// The events for a whole text: each character encoded against the layout,
/// its events emitted in order, strictly sequentially.
pub open spec fn text_actions(entries: Seq<LayoutEntry>, text: Seq<char>) -> Seq<InputAction>
    decreases text.len(),
{
    if text.len() == 0 {
        Seq::empty()
    } else {
        char_actions(spec_encode(entries, text[0])) + text_actions(entries, text.drop_first())
    }
}

/// The chat-open hotkey: Enter pressed while Shift is held, with the tuned
/// delays around each modifier transition. The bracketing order is fixed:
/// it encodes empirically-tuned timing, not arbitrary choice.
pub open spec fn open_chat_actions() -> Seq<InputAction> {
    seq![
        InputAction::KeyDown(VK_SHIFT),
        InputAction::SleepMs(SHIFT_KEY_DELAY_MS),
    ] + press_key_actions(VK_RETURN) + seq![
        InputAction::SleepMs(SHIFT_KEY_DELAY_MS),
        InputAction::KeyUp(VK_SHIFT),
    ]
}

/// Everything emitted for one line once the target window is focused:
/// settle, open chat, settle, type the text, settle, press Enter to send,
/// settle. Linear, with no backward steps.
pub open spec fn send_line_actions(entries: Seq<LayoutEntry>, text: Seq<char>) -> Seq<
    InputAction,
> {
    seq![InputAction::SleepMs(FOCUS_DELAY_MS)] + open_chat_actions() + seq![
        InputAction::SleepMs(CHAT_OPEN_DELAY_MS),
    ] + text_actions(entries, text) + seq![InputAction::SleepMs(AFTER_TYPE_DELAY_MS)]
        + press_key_actions(VK_RETURN) + seq![InputAction::SleepMs(AFTER_SEND_DELAY_MS)]
}

/// Append a complete key press (down, dwell, up) to a plan being built.
fn push_press_key(out: &mut Vec<InputAction>, vk: u16)
    ensures
        final(out)@ == old(out)@ + press_key_actions(vk),
{
    out.push(InputAction::KeyDown(vk));
    out.push(InputAction::SleepMs(KEY_PRESS_DELAY_MS));
    out.push(InputAction::KeyUp(vk));
    assert(out@ =~= old(out)@ + press_key_actions(vk));
}

/// Append the events for one encoded character to a plan being built.
fn push_char(out: &mut Vec<InputAction>, e: CharacterEncoding)
    ensures
        final(out)@ == old(out)@ + char_actions(e),
{
    match e {
        CharacterEncoding::DirectKey { vk, needs_shift } => {
            if needs_shift {
                out.push(InputAction::KeyDown(VK_SHIFT));
                out.push(InputAction::SleepMs(SHIFT_KEY_DELAY_MS));
                push_press_key(out, vk);
                out.push(InputAction::SleepMs(SHIFT_KEY_DELAY_MS));
                out.push(InputAction::KeyUp(VK_SHIFT));
                out.push(InputAction::SleepMs(CHAR_TYPE_DELAY_MS));
                assert(out@ =~= old(out)@ + char_actions(e));
            } else {
                push_press_key(out, vk);
                out.push(InputAction::SleepMs(CHAR_TYPE_DELAY_MS));
                assert(out@ =~= old(out)@ + char_actions(e));
            }
        },
        CharacterEncoding::UnicodeFallback { codepoint } => {
            out.push(InputAction::UnicodeDown(codepoint));
            out.push(InputAction::SleepMs(UNICODE_KEY_DELAY_MS));
            out.push(InputAction::UnicodeUp(codepoint));
            out.push(InputAction::SleepMs(CHAR_TYPE_DELAY_MS));
            assert(out@ =~= old(out)@ + char_actions(e));
        },
    }
}

/// Unrolling `text_actions` one character at a time from the front.
proof fn lemma_text_actions_step(entries: Seq<LayoutEntry>, text: Seq<char>, i: int)
    requires
        0 <= i < text.len(),
    ensures
        text_actions(entries, text.skip(i)) == char_actions(spec_encode(entries, text[i]))
            + text_actions(entries, text.skip(i + 1)),
{
    let s = text.skip(i);
    assert(s.len() > 0);
    assert(s[0] == text[i]);
    assert(s.drop_first() =~= text.skip(i + 1));
}

/// The events for one character, as produced by `encode`.
pub fn send_char(layout: &KeyboardLayout, c: char) -> (r: Vec<InputAction>)
    ensures
        r@ == char_actions(spec_encode(layout.entries@, c)),
{
    let e = crate::encoder::encode(layout, c);
    let mut out: Vec<InputAction> = Vec::new();
    push_char(&mut out, e);
    assert(out@ =~= char_actions(e));
    out
}

/// The events for typing a whole text, character by character, purely
/// sequentially with no batching. An empty text yields an empty plan:
/// zero key events.
pub fn type_text(layout: &KeyboardLayout, text: &str) -> (r: Vec<InputAction>)
    ensures
        r@ == text_actions(layout.entries@, text@),
        text@.len() == 0 ==> r@.len() == 0,
{
    let n = text.unicode_len();
    let mut out: Vec<InputAction> = Vec::new();
    assert(text@.skip(0) =~= text@);
    for i in 0..n
        invariant
            n == text@.len(),
            out@ + text_actions(layout.entries@, text@.skip(i as int)) == text_actions(
                layout.entries@,
                text@,
            ),
    {
        let c = text.get_char(i);
        let e = crate::encoder::encode(layout, c);
        proof {
            lemma_text_actions_step(layout.entries@, text@, i as int);
        }
        let ghost before = out@;
        push_char(&mut out, e);
        proof {
            assert(before + (char_actions(e) + text_actions(
                layout.entries@,
                text@.skip(i + 1),
            )) =~= (before + char_actions(e)) + text_actions(layout.entries@, text@.skip(i + 1)));
        }
    }
    proof {
        assert(text@.skip(n as int) =~= Seq::<char>::empty());
        assert(out@ + Seq::<InputAction>::empty() =~= out@);
    }
    out
}

/// Append every action of `src` to a plan being built, in order.
fn push_all(out: &mut Vec<InputAction>, src: &Vec<InputAction>)
    ensures
        final(out)@ == old(out)@ + src@,
{
    let n = src.len();
    for i in 0..n
        invariant
            n == src@.len(),
            out@ == old(out)@ + src@.take(i as int),
    {
        out.push(src[i]);
        assert(out@ =~= old(out)@ + src@.take(i + 1));
    }
    assert(out@ =~= old(out)@ + src@);
}

/// The full plan for one line against an already-focused window.
pub fn plan_line(layout: &KeyboardLayout, text: &str) -> (r: Vec<InputAction>)
    ensures
        r@ == send_line_actions(layout.entries@, text@),
{
    let mut out: Vec<InputAction> = Vec::new();
    out.push(InputAction::SleepMs(FOCUS_DELAY_MS));
    out.push(InputAction::KeyDown(VK_SHIFT));
    out.push(InputAction::SleepMs(SHIFT_KEY_DELAY_MS));
    push_press_key(&mut out, VK_RETURN);
    out.push(InputAction::SleepMs(SHIFT_KEY_DELAY_MS));
    out.push(InputAction::KeyUp(VK_SHIFT));
    out.push(InputAction::SleepMs(CHAT_OPEN_DELAY_MS));
    let typed = type_text(layout, text);
    push_all(&mut out, &typed);
    out.push(InputAction::SleepMs(AFTER_TYPE_DELAY_MS));
    push_press_key(&mut out, VK_RETURN);
    out.push(InputAction::SleepMs(AFTER_SEND_DELAY_MS));
    assert(out@ =~= send_line_actions(layout.entries@, text@));
    out
}

} // verus!

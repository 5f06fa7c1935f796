use mad_typing::config::{
    AFTER_SEND_DELAY_MS, AFTER_TYPE_DELAY_MS, CHAR_TYPE_DELAY_MS, CHAT_OPEN_DELAY_MS,
    FOCUS_DELAY_MS, KEY_PRESS_DELAY_MS, SHIFT_KEY_DELAY_MS, UNICODE_KEY_DELAY_MS,
};
use mad_typing::encoder::{
    encode, CharacterEncoding, KeyboardLayout, LayoutEntry, VK_RETURN, VK_SHIFT,
};
use mad_typing::events::{plan_line, send_char, type_text, InputAction};
use mad_typing::balance::layout_is_wf;

fn test_layout() -> KeyboardLayout {
    KeyboardLayout {
        entries: vec![
            LayoutEntry { ch: 'H', vk: 0x48, needs_shift: true },
            LayoutEntry { ch: 'i', vk: 0x49, needs_shift: false },
        ],
    }
}

#[test]
fn encode_is_deterministic_for_a_fixed_layout() {
    let layout = test_layout();
    let first = encode(&layout, 'H');
    let second = encode(&layout, 'H');
    assert_eq!(first, second);
    assert_eq!(first, CharacterEncoding::DirectKey { vk: 0x48, needs_shift: true });
    assert_eq!(encode(&layout, 'i'), CharacterEncoding::DirectKey { vk: 0x49, needs_shift: false });
}

#[test]
fn encode_first_matching_entry_wins() {
    let layout = KeyboardLayout {
        entries: vec![
            LayoutEntry { ch: 'a', vk: 0x41, needs_shift: false },
            LayoutEntry { ch: 'a', vk: 0x42, needs_shift: true },
        ],
    };
    assert_eq!(encode(&layout, 'a'), CharacterEncoding::DirectKey { vk: 0x41, needs_shift: false });
}

#[test]
fn encode_falls_back_to_unicode_for_unmapped_characters() {
    let layout = test_layout();
    assert_eq!(
        encode(&layout, 'é'),
        CharacterEncoding::UnicodeFallback { codepoint: 'é' as u32 }
    );
    assert_eq!(
        encode(&layout, '🦀'),
        CharacterEncoding::UnicodeFallback { codepoint: '🦀' as u32 }
    );
    let empty = KeyboardLayout::empty();
    assert_eq!(
        encode(&empty, 'x'),
        CharacterEncoding::UnicodeFallback { codepoint: 'x' as u32 }
    );
}

#[test]
fn typing_an_empty_text_emits_zero_key_events() {
    let layout = test_layout();
    let actions = type_text(&layout, "");
    assert_eq!(actions.len(), 0);
}

#[test]
fn unicode_fallback_event_pair_in_order() {
    let layout = KeyboardLayout::empty();
    let actions = send_char(&layout, 'é');
    assert_eq!(
        actions,
        vec![
            InputAction::UnicodeDown('é' as u32),
            InputAction::SleepMs(UNICODE_KEY_DELAY_MS),
            InputAction::UnicodeUp('é' as u32),
            InputAction::SleepMs(CHAR_TYPE_DELAY_MS),
        ]
    );
}

#[test]
fn send_line_plan_trace_for_hi() {
    let layout = test_layout();
    let plan = plan_line(&layout, "Hi");
    let expected = vec![
        // settle after activation
        InputAction::SleepMs(FOCUS_DELAY_MS),
        // chat-open hotkey: Enter pressed inside a held Shift
        InputAction::KeyDown(VK_SHIFT),
        InputAction::SleepMs(SHIFT_KEY_DELAY_MS),
        InputAction::KeyDown(VK_RETURN),
        InputAction::SleepMs(KEY_PRESS_DELAY_MS),
        InputAction::KeyUp(VK_RETURN),
        InputAction::SleepMs(SHIFT_KEY_DELAY_MS),
        InputAction::KeyUp(VK_SHIFT),
        InputAction::SleepMs(CHAT_OPEN_DELAY_MS),
        // 'H': shifted direct key
        InputAction::KeyDown(VK_SHIFT),
        InputAction::SleepMs(SHIFT_KEY_DELAY_MS),
        InputAction::KeyDown(0x48),
        InputAction::SleepMs(KEY_PRESS_DELAY_MS),
        InputAction::KeyUp(0x48),
        InputAction::SleepMs(SHIFT_KEY_DELAY_MS),
        InputAction::KeyUp(VK_SHIFT),
        InputAction::SleepMs(CHAR_TYPE_DELAY_MS),
        // 'i': plain direct key
        InputAction::KeyDown(0x49),
        InputAction::SleepMs(KEY_PRESS_DELAY_MS),
        InputAction::KeyUp(0x49),
        InputAction::SleepMs(CHAR_TYPE_DELAY_MS),
        // submit
        InputAction::SleepMs(AFTER_TYPE_DELAY_MS),
        InputAction::KeyDown(VK_RETURN),
        InputAction::SleepMs(KEY_PRESS_DELAY_MS),
        InputAction::KeyUp(VK_RETURN),
        InputAction::SleepMs(AFTER_SEND_DELAY_MS),
    ];
    assert_eq!(plan, expected);
}

#[test]
fn layout_well_formedness_is_checkable() {
    assert!(layout_is_wf(&test_layout()));
    assert!(layout_is_wf(&KeyboardLayout::empty()));
    let shifted_shift = KeyboardLayout {
        entries: vec![LayoutEntry { ch: '!', vk: VK_SHIFT, needs_shift: true }],
    };
    assert!(!layout_is_wf(&shifted_shift));
}

#[test]
fn no_key_is_down_twice_in_a_plan() {
    // Runtime replay of the bracketing discipline over a mixed plan.
    let layout = test_layout();
    let plan = plan_line(&layout, "Hi é");
    let mut held: Vec<(u64, i64)> = Vec::new();
    for a in plan.iter() {
        let (key, d) = match a {
            InputAction::KeyDown(vk) => (*vk as u64, 1i64),
            InputAction::KeyUp(vk) => (*vk as u64, -1i64),
            InputAction::UnicodeDown(cp) => (0x10000 + *cp as u64, 1i64),
            InputAction::UnicodeUp(cp) => (0x10000 + *cp as u64, -1i64),
            InputAction::SleepMs(_) => continue,
        };
        let mut found = false;
        for entry in held.iter_mut() {
            if entry.0 == key {
                entry.1 += d;
                found = true;
                break;
            }
        }
        if !found {
            held.push((key, d));
        }
        for entry in held.iter() {
            assert!(entry.1 == 0 || entry.1 == 1, "key held out of bracket");
        }
    }
    for entry in held.iter() {
        assert_eq!(entry.1, 0, "key left held at end of plan");
    }
}

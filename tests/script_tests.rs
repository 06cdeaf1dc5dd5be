use login_rs::script::{login_script, InputEvent, SCROLL_RESET_COUNT, VK_DOWN, VK_RETURN};

fn is_confirm(e: &InputEvent) -> bool {
    matches!(e, InputEvent::KeyPress { vk, .. } if *vk == VK_RETURN)
}

fn downs_before_confirm(script: &[InputEvent]) -> usize {
    script
        .iter()
        .take_while(|e| !is_confirm(e))
        .filter(|e| matches!(e, InputEvent::KeyPress { vk, .. } if *vk == VK_DOWN))
        .count()
}

#[test]
fn every_slot_gets_exactly_slot_down_presses() {
    for slot in 1u8..=20 {
        let script = login_script(slot, "secret");
        assert_eq!(downs_before_confirm(&script), slot as usize);
    }
}

#[test]
fn bob_slot_five_scrolls_then_moves_down() {
    let script = login_script(5, "bobs-secret");
    let first_confirm = script.iter().position(is_confirm).unwrap();
    let before: Vec<&InputEvent> = script[..first_confirm].iter().collect();
    let scrolls: Vec<usize> = before
        .iter()
        .enumerate()
        .filter(|(_, e)| matches!(e, InputEvent::ScrollUp))
        .map(|(i, _)| i)
        .collect();
    let downs: Vec<usize> = before
        .iter()
        .enumerate()
        .filter(|(_, e)| matches!(e, InputEvent::KeyPress { vk, .. } if *vk == VK_DOWN))
        .map(|(i, _)| i)
        .collect();
    assert_eq!(scrolls.len(), 20);
    assert_eq!(SCROLL_RESET_COUNT, 20);
    assert_eq!(downs.len(), 5);
    assert!(scrolls.iter().max().unwrap() < downs.iter().min().unwrap());
}

#[test]
fn script_shape_and_timings() {
    let script = login_script(2, "pw");
    assert_eq!(script.len(), 3 + 20 + 1 + 2 + 8 + 12);
    assert!(matches!(script[0], InputEvent::FocusWindow));
    assert!(matches!(script[1], InputEvent::MovePointerIntoWindow));
    assert!(matches!(script[2], InputEvent::Delay { ms: 500 }));
    assert!(matches!(script[23], InputEvent::Delay { ms: 300 }));
    assert!(matches!(script[24], InputEvent::KeyPress { vk: 0x28, hold_ms: 200 }));
    assert!(matches!(script[26], InputEvent::KeyPress { vk: 0x0D, hold_ms: 300 }));
    assert!(matches!(script[27], InputEvent::Delay { ms: 1500 }));
    let confirms = script
        .iter()
        .filter(|e| matches!(e, InputEvent::KeyPress { vk: 0x0D, hold_ms: 300 }))
        .count();
    assert_eq!(confirms, 4);
    assert!(matches!(script[34], InputEvent::KeyPress { vk: 0x26, hold_ms: 150 }));
    assert!(matches!(script[35], InputEvent::KeyPress { vk: 0x27, hold_ms: 150 }));
    assert!(matches!(script[36], InputEvent::KeyPress { vk: 0x27, hold_ms: 150 }));
    assert!(matches!(script[37], InputEvent::KeyPress { vk: 0x0D, hold_ms: 150 }));
    match &script[39] {
        InputEvent::TypeText { text } => assert_eq!(text, "pw"),
        other => panic!("unexpected {:?}", other),
    }
    assert!(matches!(script[43], InputEvent::KeyPress { vk: 0x28, hold_ms: 150 }));
    assert!(matches!(script[44], InputEvent::KeyPress { vk: 0x0D, hold_ms: 150 }));
    assert!(matches!(script[45], InputEvent::Delay { ms: 500 }));
}

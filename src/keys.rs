use vstd::prelude::*;

use crate::text::{decimal_text, hex_text, push_decimal, push_hex};

verus! {

/// Whether a recorded key event pressed or released the key.
#[derive(Clone, Copy, Debug, PartialEq, Eq, Structural)]
pub enum KeyDirection {
    Down,
    Up,
}

/// One recorded key event: the virtual-key code, press or release, and the
/// milliseconds since the event before it.
#[derive(Clone, Copy, Debug, PartialEq, Eq, Structural)]
pub struct RecordedKey {
    pub vk_code: u16,
    pub direction: KeyDirection,
    pub delay_ms: u64,
}

pub open spec fn letters() -> Seq<char> {
    "ABCDEFGHIJKLMNOPQRSTUVWXYZ"@
}

/// The readable name of a virtual-key code: a fixed name for the common
/// control keys, the digit or letter itself, `NUMPAD_n`, `Fn`, and otherwise
/// `VK_0x` with the code in upper-case hexadecimal (two digits at least).
pub open spec fn key_name(vk: u16) -> Seq<char> {
    if vk == 0x08 {
        "BACKSPACE"@
    } else if vk == 0x09 {
        "TAB"@
    } else if vk == 0x0D {
        "ENTER"@
    } else if vk == 0x10 {
        "SHIFT"@
    } else if vk == 0x11 {
        "CTRL"@
    } else if vk == 0x12 {
        "ALT"@
    } else if vk == 0x14 {
        "CAPS_LOCK"@
    } else if vk == 0x1B {
        "ESCAPE"@
    } else if vk == 0x20 {
        "SPACE"@
    } else if vk == 0x21 {
        "PAGE_UP"@
    } else if vk == 0x22 {
        "PAGE_DOWN"@
    } else if vk == 0x23 {
        "END"@
    } else if vk == 0x24 {
        "HOME"@
    } else if vk == 0x25 {
        "LEFT"@
    } else if vk == 0x26 {
        "UP"@
    } else if vk == 0x27 {
        "RIGHT"@
    } else if vk == 0x28 {
        "DOWN"@
    } else if vk == 0x2D {
        "INSERT"@
    } else if vk == 0x2E {
        "DELETE"@
    } else if 0x30 <= vk <= 0x39 {
        decimal_text((vk - 0x30) as nat)
    } else if 0x41 <= vk <= 0x5A {
        letters().subrange(vk - 0x41, vk - 0x40)
    } else if 0x60 <= vk <= 0x69 {
        "NUMPAD_"@ + decimal_text((vk - 0x60) as nat)
    } else if vk == 0x6A {
        "MULTIPLY"@
    } else if vk == 0x6B {
        "ADD"@
    } else if vk == 0x6D {
        "SUBTRACT"@
    } else if vk == 0x6E {
        "DECIMAL"@
    } else if vk == 0x6F {
        "DIVIDE"@
    } else if 0x70 <= vk <= 0x7B {
        "F"@ + decimal_text((vk - 0x70 + 1) as nat)
    } else if vk == 0xA0 {
        "LSHIFT"@
    } else if vk == 0xA1 {
        "RSHIFT"@
    } else if vk == 0xA2 {
        "LCTRL"@
    } else if vk == 0xA3 {
        "RCTRL"@
    } else if vk == 0xA4 {
        "LALT"@
    } else if vk == 0xA5 {
        "RALT"@
    } else {
        "VK_0x"@ + hex_text(vk as nat)
    }
}

/// The readable name of virtual-key code `vk`, as `key_name` gives it.
pub fn vk_name(vk: u16) -> (r: String)
    ensures
        r@ == key_name(vk),
{
    if vk == 0x08 {
        String::from_str("BACKSPACE")
    } else if vk == 0x09 {
        String::from_str("TAB")
    } else if vk == 0x0D {
        String::from_str("ENTER")
    } else if vk == 0x10 {
        String::from_str("SHIFT")
    } else if vk == 0x11 {
        String::from_str("CTRL")
    } else if vk == 0x12 {
        String::from_str("ALT")
    } else if vk == 0x14 {
        String::from_str("CAPS_LOCK")
    } else if vk == 0x1B {
        String::from_str("ESCAPE")
    } else if vk == 0x20 {
        String::from_str("SPACE")
    } else if vk == 0x21 {
        String::from_str("PAGE_UP")
    } else if vk == 0x22 {
        String::from_str("PAGE_DOWN")
    } else if vk == 0x23 {
        String::from_str("END")
    } else if vk == 0x24 {
        String::from_str("HOME")
    } else if vk == 0x25 {
        String::from_str("LEFT")
    } else if vk == 0x26 {
        String::from_str("UP")
    } else if vk == 0x27 {
        String::from_str("RIGHT")
    } else if vk == 0x28 {
        String::from_str("DOWN")
    } else if vk == 0x2D {
        String::from_str("INSERT")
    } else if vk == 0x2E {
        String::from_str("DELETE")
    } else if 0x30 <= vk && vk <= 0x39 {
        let mut s = String::new();
        push_decimal(&mut s, (vk - 0x30) as u64);
        assert(s@ =~= decimal_text((vk - 0x30) as nat));
        s
    } else if 0x41 <= vk && vk <= 0x5A {
        let l = "ABCDEFGHIJKLMNOPQRSTUVWXYZ";
        proof {
            reveal_strlit("ABCDEFGHIJKLMNOPQRSTUVWXYZ");
        }
        String::from_str(l.substring_char((vk - 0x41) as usize, (vk - 0x40) as usize))
    } else if 0x60 <= vk && vk <= 0x69 {
        let mut s = String::from_str("NUMPAD_");
        push_decimal(&mut s, (vk - 0x60) as u64);
        s
    } else if vk == 0x6A {
        String::from_str("MULTIPLY")
    } else if vk == 0x6B {
        String::from_str("ADD")
    } else if vk == 0x6D {
        String::from_str("SUBTRACT")
    } else if vk == 0x6E {
        String::from_str("DECIMAL")
    } else if vk == 0x6F {
        String::from_str("DIVIDE")
    } else if 0x70 <= vk && vk <= 0x7B {
        let mut s = String::from_str("F");
        push_decimal(&mut s, (vk - 0x70 + 1) as u64);
        s
    } else if vk == 0xA0 {
        String::from_str("LSHIFT")
    } else if vk == 0xA1 {
        String::from_str("RSHIFT")
    } else if vk == 0xA2 {
        String::from_str("LCTRL")
    } else if vk == 0xA3 {
        String::from_str("RCTRL")
    } else if vk == 0xA4 {
        String::from_str("LALT")
    } else if vk == 0xA5 {
        String::from_str("RALT")
    } else {
        let mut s = String::from_str("VK_0x");
        push_hex(&mut s, vk as u64);
        s
    }
}


/// One step of replaying recorded keys: a pause, or one key event.
#[derive(Clone, Copy, Debug, PartialEq, Eq, Structural)]
pub enum KeyInput {
    Wait { ms: u64 },
    Send { vk_code: u16, direction: KeyDirection },
}

/// The replay of one recorded key: its pause first when it has one, then the
/// key event.
pub open spec fn replay_of(k: RecordedKey) -> Seq<KeyInput> {
    if k.delay_ms > 0 {
        seq![KeyInput::Wait { ms: k.delay_ms }, KeyInput::Send { vk_code: k.vk_code, direction: k.direction }]
    } else {
        seq![KeyInput::Send { vk_code: k.vk_code, direction: k.direction }]
    }
}

/// The replay of recorded keys, in order.
pub open spec fn replay_all(keys: Seq<RecordedKey>) -> Seq<KeyInput>
    decreases keys.len(),
{
    if keys.len() == 0 {
        seq![]
    } else {
        replay_all(keys.drop_last()) + replay_of(keys.last())
    }
}

/// The inputs that replay `keys` with their recorded timing: each key's
/// recorded pause, then the key event itself.
pub fn replay_keys(keys: &[RecordedKey]) -> (r: Vec<KeyInput>)
    ensures
        r@ == replay_all(keys@),
{
    let mut out: Vec<KeyInput> = Vec::new();
    let mut i: usize = 0;
    while i < keys.len()
        invariant
            i <= keys@.len(),
            out@ == replay_all(keys@.take(i as int)),
        decreases keys@.len() - i,
    {
        let k = keys[i];
        let ghost before = out@;
        if k.delay_ms > 0 {
            out.push(KeyInput::Wait { ms: k.delay_ms });
        }
        out.push(KeyInput::Send { vk_code: k.vk_code, direction: k.direction });
        proof {
            assert(keys@.take(i + 1).drop_last() =~= keys@.take(i as int));
            assert(out@ =~= before + replay_of(k));
        }
        i = i + 1;
    }
    assert(keys@.take(i as int) =~= keys@);
    out
}


/// Virtual-key code of the shift key.
pub const VK_SHIFT: u16 = 0x10;

/// Pause after each typed character.
pub const TYPE_PAUSE_MS: u64 = 50;

/// The inputs that type one character, from its key-scan result: the key code
/// is the low byte and the lowest bit of the high byte asks for shift, which
/// is then held around the key; a short pause follows.
pub open spec fn typing_of(scan: u16) -> Seq<KeyInput> {
    let vk = (scan % 256) as u16;
    let key = seq![
        KeyInput::Send { vk_code: vk, direction: KeyDirection::Down },
        KeyInput::Send { vk_code: vk, direction: KeyDirection::Up },
    ];
    if (scan / 256) % 2 == 1 {
        seq![KeyInput::Send { vk_code: VK_SHIFT, direction: KeyDirection::Down }] + key + seq![
            KeyInput::Send { vk_code: VK_SHIFT, direction: KeyDirection::Up },
            KeyInput::Wait { ms: TYPE_PAUSE_MS },
        ]
    } else {
        key + seq![KeyInput::Wait { ms: TYPE_PAUSE_MS }]
    }
}

/// The inputs that type every character, in order.
pub open spec fn typing_all(scans: Seq<u16>) -> Seq<KeyInput>
    decreases scans.len(),
{
    if scans.len() == 0 {
        seq![]
    } else {
        typing_all(scans.drop_last()) + typing_of(scans.last())
    }
}

/// The inputs that type a text whose characters have the key-scan results
/// `scans`, one after another.
pub fn typing_inputs(scans: &[u16]) -> (r: Vec<KeyInput>)
    ensures
        r@ == typing_all(scans@),
{
    let mut out: Vec<KeyInput> = Vec::new();
    let mut i: usize = 0;
    while i < scans.len()
        invariant
            i <= scans@.len(),
            out@ == typing_all(scans@.take(i as int)),
        decreases scans@.len() - i,
    {
        let scan = scans[i];
        let vk = scan % 256;
        let shift = (scan / 256) % 2 == 1;
        let ghost before = out@;
        if shift {
            out.push(KeyInput::Send { vk_code: VK_SHIFT, direction: KeyDirection::Down });
        }
        out.push(KeyInput::Send { vk_code: vk, direction: KeyDirection::Down });
        out.push(KeyInput::Send { vk_code: vk, direction: KeyDirection::Up });
        if shift {
            out.push(KeyInput::Send { vk_code: VK_SHIFT, direction: KeyDirection::Up });
        }
        out.push(KeyInput::Wait { ms: TYPE_PAUSE_MS });
        proof {
            assert(scans@.take(i + 1).drop_last() =~= scans@.take(i as int));
            assert(out@ =~= before + typing_of(scan));
        }
        i = i + 1;
    }
    assert(scans@.take(i as int) =~= scans@);
    out
}

} // verus!

use vstd::prelude::*;

verus! {

/// Virtual-key codes used by the login script.
pub const VK_RETURN: u16 = 0x0D;

pub const VK_UP: u16 = 0x26;

pub const VK_RIGHT: u16 = 0x27;

pub const VK_DOWN: u16 = 0x28;

/// Wheel notches sent upward to bring the client's selection cursor back to the
/// first slot, whatever slot it was left on.
pub const SCROLL_RESET_COUNT: u64 = 20;

/// Key hold while moving through the slot list, and on the slot confirmation.
pub const SLOT_MOVE_HOLD_MS: u64 = 200;

pub const CONFIRM_HOLD_MS: u64 = 300;

/// Key hold for every key after the confirmation screens.
pub const NAV_HOLD_MS: u64 = 150;

/// Pauses that give the client time to take in the previous event.
pub const FOCUS_SETTLE_MS: u64 = 500;

pub const SCROLL_SETTLE_MS: u64 = 300;

pub const SCREEN_SETTLE_MS: u64 = 1500;

pub const FIELD_SETTLE_MS: u64 = 500;

pub const TYPED_SETTLE_MS: u64 = 300;

/// Number of confirmation screens passed after the slot is chosen.
pub const CONFIRM_SCREENS: u64 = 3;

/// One step of a login script, performed against the focused client window.
#[derive(Clone, Debug)]
pub enum InputEvent {
    FocusWindow,
    MovePointerIntoWindow,
    Delay { ms: u64 },
    ScrollUp,
    KeyPress { vk: u16, hold_ms: u64 },
    TypeText { text: String },
}

/// What an `InputEvent` means, with the typed text as characters.
pub ghost enum Step {
    FocusWindow,
    MovePointerIntoWindow,
    Delay { ms: u64 },
    ScrollUp,
    KeyPress { vk: u16, hold_ms: u64 },
    TypeText { text: Seq<char> },
}

impl View for InputEvent {
    type V = Step;

    open spec fn view(&self) -> Step {
        match self {
            InputEvent::FocusWindow => Step::FocusWindow,
            InputEvent::MovePointerIntoWindow => Step::MovePointerIntoWindow,
            InputEvent::Delay { ms } => Step::Delay { ms: *ms },
            InputEvent::ScrollUp => Step::ScrollUp,
            InputEvent::KeyPress { vk, hold_ms } => Step::KeyPress { vk: *vk, hold_ms: *hold_ms },
            InputEvent::TypeText { text } => Step::TypeText { text: text@ },
        }
    }
}

pub open spec fn steps_of(v: Seq<InputEvent>) -> Seq<Step> {
    v.map_values(|e: InputEvent| e@)
}

pub open spec fn key(vk: u16, hold_ms: u64) -> Step {
    Step::KeyPress { vk, hold_ms }
}

pub open spec fn pause(ms: u64) -> Step {
    Step::Delay { ms }
}

/// Focus the window, park the pointer inside it, and wind the selection back to
/// the first slot.
pub open spec fn reset_steps() -> Seq<Step> {
    seq![Step::FocusWindow, Step::MovePointerIntoWindow, pause(FOCUS_SETTLE_MS)] + Seq::new(
        SCROLL_RESET_COUNT as nat,
        |i: int| Step::ScrollUp,
    ) + seq![pause(SCROLL_SETTLE_MS)]
}

/// `slot` presses of the down key: the first one lights slot 1.
pub open spec fn slot_steps(slot: u8) -> Seq<Step> {
    Seq::new(slot as nat, |i: int| key(VK_DOWN, SLOT_MOVE_HOLD_MS))
}

/// Confirm the slot, then pass the three confirmation screens.
pub open spec fn confirm_steps() -> Seq<Step> {
    seq![
        key(VK_RETURN, CONFIRM_HOLD_MS),
        pause(SCREEN_SETTLE_MS),
        key(VK_RETURN, CONFIRM_HOLD_MS),
        pause(SCREEN_SETTLE_MS),
        key(VK_RETURN, CONFIRM_HOLD_MS),
        pause(SCREEN_SETTLE_MS),
        key(VK_RETURN, CONFIRM_HOLD_MS),
        pause(SCREEN_SETTLE_MS),
    ]
}

/// Reach the password field, type the secret, submit it, then press "connect".
pub open spec fn credential_steps(password: Seq<char>) -> Seq<Step> {
    seq![
        key(VK_UP, NAV_HOLD_MS),
        key(VK_RIGHT, NAV_HOLD_MS),
        key(VK_RIGHT, NAV_HOLD_MS),
        key(VK_RETURN, NAV_HOLD_MS),
        pause(FIELD_SETTLE_MS),
        Step::TypeText { text: password },
        pause(TYPED_SETTLE_MS),
        key(VK_RETURN, NAV_HOLD_MS),
        pause(FIELD_SETTLE_MS),
        key(VK_DOWN, NAV_HOLD_MS),
        key(VK_RETURN, NAV_HOLD_MS),
        pause(FIELD_SETTLE_MS),
    ]
}

/// The whole login script for a character in `slot` with secret `password`.
pub open spec fn login_steps(slot: u8, password: Seq<char>) -> Seq<Step> {
    reset_steps() + slot_steps(slot) + confirm_steps() + credential_steps(password)
}

fn push_event(v: &mut Vec<InputEvent>, e: InputEvent)
    ensures
        steps_of(final(v)@) == steps_of(old(v)@).push(e@),
{
    let ghost e_view = e@;
    v.push(e);
    proof {
        assert(steps_of(v@) =~= steps_of(old(v)@).push(e_view));
    }
}

fn push_key(v: &mut Vec<InputEvent>, vk: u16, hold_ms: u64)
    ensures
        steps_of(final(v)@) == steps_of(old(v)@).push(key(vk, hold_ms)),
{
    push_event(v, InputEvent::KeyPress { vk, hold_ms });
}

fn push_pause(v: &mut Vec<InputEvent>, ms: u64)
    ensures
        steps_of(final(v)@) == steps_of(old(v)@).push(pause(ms)),
{
    push_event(v, InputEvent::Delay { ms });
}

fn push_repeated(v: &mut Vec<InputEvent>, e: &InputEvent, n: u64)
    requires
        e matches InputEvent::ScrollUp || e matches InputEvent::KeyPress { .. },
    ensures
        steps_of(final(v)@) == steps_of(old(v)@) + Seq::new(n as nat, |i: int| e@),
{
    let mut k: u64 = 0;
    while k < n
        invariant
            k <= n,
            e matches InputEvent::ScrollUp || e matches InputEvent::KeyPress { .. },
            steps_of(v@) == steps_of(old(v)@) + Seq::new(k as nat, |i: int| e@),
        decreases n - k,
    {
        let c = match e {
            InputEvent::ScrollUp => InputEvent::ScrollUp,
            InputEvent::KeyPress { vk, hold_ms } => InputEvent::KeyPress { vk: *vk, hold_ms: *hold_ms },
            _ => InputEvent::ScrollUp,
        };
        push_event(v, c);
        proof {
            assert(steps_of(old(v)@) + Seq::new((k + 1) as nat, |i: int| e@) =~= (steps_of(old(v)@)
                + Seq::new(k as nat, |i: int| e@)).push(e@));
        }
        k = k + 1;
    }
}

/// Builds the login script for one character: reset the selection with
/// `SCROLL_RESET_COUNT` wheel notches, press down exactly `slot` times, confirm
/// through the screens, then enter `password` and connect. Every step carries
/// its fixed hold or settle time.
pub fn login_script(slot: u8, password: &str) -> (r: Vec<InputEvent>)
    ensures
        steps_of(r@) == login_steps(slot, password@),
{
    let mut v: Vec<InputEvent> = Vec::new();
    push_event(&mut v, InputEvent::FocusWindow);
    push_event(&mut v, InputEvent::MovePointerIntoWindow);
    push_pause(&mut v, FOCUS_SETTLE_MS);
    push_repeated(&mut v, &InputEvent::ScrollUp, SCROLL_RESET_COUNT);
    push_pause(&mut v, SCROLL_SETTLE_MS);
    let ghost after_reset = steps_of(v@);
    assert(after_reset =~= reset_steps());
    push_repeated(&mut v, &InputEvent::KeyPress { vk: VK_DOWN, hold_ms: SLOT_MOVE_HOLD_MS }, slot as u64);
    let ghost after_slot = steps_of(v@);
    assert(after_slot =~= reset_steps() + slot_steps(slot));
    push_key(&mut v, VK_RETURN, CONFIRM_HOLD_MS);
    push_pause(&mut v, SCREEN_SETTLE_MS);
    let mut screen: u64 = 0;
    while screen < CONFIRM_SCREENS
        invariant
            screen <= CONFIRM_SCREENS,
            steps_of(v@) == after_slot + seq![key(VK_RETURN, CONFIRM_HOLD_MS), pause(SCREEN_SETTLE_MS)]
                + Seq::new(
                2 * screen as nat,
                |i: int|
                    if i % 2 == 0 {
                        key(VK_RETURN, CONFIRM_HOLD_MS)
                    } else {
                        pause(SCREEN_SETTLE_MS)
                    },
            ),
        decreases CONFIRM_SCREENS - screen,
    {
        let ghost before = steps_of(v@);
        push_key(&mut v, VK_RETURN, CONFIRM_HOLD_MS);
        push_pause(&mut v, SCREEN_SETTLE_MS);
        proof {
            let f = |i: int|
                if i % 2 == 0 {
                    key(VK_RETURN, CONFIRM_HOLD_MS)
                } else {
                    pause(SCREEN_SETTLE_MS)
                };
            let prefix = after_slot + seq![key(VK_RETURN, CONFIRM_HOLD_MS), pause(SCREEN_SETTLE_MS)];
            assert(prefix + Seq::new(2 * (screen + 1) as nat, f) =~= (prefix + Seq::new(
                2 * screen as nat,
                f,
            )).push(key(VK_RETURN, CONFIRM_HOLD_MS)).push(pause(SCREEN_SETTLE_MS)));
        }
        screen = screen + 1;
    }
    assert(steps_of(v@) =~= reset_steps() + slot_steps(slot) + confirm_steps());
    push_key(&mut v, VK_UP, NAV_HOLD_MS);
    push_key(&mut v, VK_RIGHT, NAV_HOLD_MS);
    push_key(&mut v, VK_RIGHT, NAV_HOLD_MS);
    push_key(&mut v, VK_RETURN, NAV_HOLD_MS);
    push_pause(&mut v, FIELD_SETTLE_MS);
    push_event(&mut v, InputEvent::TypeText { text: String::from_str(password) });
    push_pause(&mut v, TYPED_SETTLE_MS);
    push_key(&mut v, VK_RETURN, NAV_HOLD_MS);
    push_pause(&mut v, FIELD_SETTLE_MS);
    push_key(&mut v, VK_DOWN, NAV_HOLD_MS);
    push_key(&mut v, VK_RETURN, NAV_HOLD_MS);
    push_pause(&mut v, FIELD_SETTLE_MS);
    assert(steps_of(v@) =~= login_steps(slot, password@));
    v
}


pub open spec fn is_confirm(s: Step) -> bool {
    s matches Step::KeyPress { vk, .. } && vk == VK_RETURN
}

pub open spec fn is_move_down(s: Step) -> bool {
    s matches Step::KeyPress { vk, .. } && vk == VK_DOWN
}

pub open spec fn is_scroll_up(s: Step) -> bool {
    s is ScrollUp
}

/// How many steps satisfying `p` come before the first confirm key.
pub open spec fn count_before_confirm(s: Seq<Step>, p: spec_fn(Step) -> bool) -> nat
    decreases s.len(),
{
    if s.len() == 0 || is_confirm(s[0]) {
        0
    } else {
        (if p(s[0]) {
            1nat
        } else {
            0nat
        }) + count_before_confirm(s.drop_first(), p)
    }
}

/// How many steps of `s` satisfy `p`.
pub open spec fn count_all(s: Seq<Step>, p: spec_fn(Step) -> bool) -> nat
    decreases s.len(),
{
    if s.len() == 0 {
        0
    } else {
        (if p(s[0]) {
            1nat
        } else {
            0nat
        }) + count_all(s.drop_first(), p)
    }
}

proof fn lemma_count_prefix(a: Seq<Step>, b: Seq<Step>, p: spec_fn(Step) -> bool)
    requires
        forall|i: int| 0 <= i < a.len() ==> !is_confirm(#[trigger] a[i]),
    ensures
        count_before_confirm(a + b, p) == count_all(a, p) + count_before_confirm(b, p),
    decreases a.len(),
{
    if a.len() == 0 {
        assert(a + b =~= b);
    } else {
        assert((a + b).drop_first() =~= a.drop_first() + b);
        assert((a + b)[0] == a[0]);
        lemma_count_prefix(a.drop_first(), b, p);
    }
}

proof fn lemma_count_repeated(n: nat, x: Step, p: spec_fn(Step) -> bool)
    ensures
        count_all(Seq::new(n, |i: int| x), p) == if p(x) {
            n
        } else {
            0
        },
    decreases n,
{
    if n > 0 {
        assert(Seq::new(n, |i: int| x).drop_first() =~= Seq::new((n - 1) as nat, |i: int| x));
        lemma_count_repeated((n - 1) as nat, x, p);
    }
}

proof fn lemma_count_join(a: Seq<Step>, b: Seq<Step>, p: spec_fn(Step) -> bool)
    ensures
        count_all(a + b, p) == count_all(a, p) + count_all(b, p),
    decreases a.len(),
{
    if a.len() == 0 {
        assert(a + b =~= b);
    } else {
        assert((a + b).drop_first() =~= a.drop_first() + b);
        lemma_count_join(a.drop_first(), b, p);
    }
}

/// For every valid slot, the script presses the down key exactly `slot` times
/// before its first confirm key, after exactly `SCROLL_RESET_COUNT` upward wheel
/// notches.
pub proof fn lemma_slot_presses(slot: u8, password: Seq<char>)
    requires
        1 <= slot <= 20,
    ensures
        count_before_confirm(login_steps(slot, password), |s: Step| is_move_down(s)) == slot,
        count_before_confirm(login_steps(slot, password), |s: Step| is_scroll_up(s))
            == SCROLL_RESET_COUNT,
{
    let down = |s: Step| is_move_down(s);
    let up = |s: Step| is_scroll_up(s);
    let head = seq![Step::FocusWindow, Step::MovePointerIntoWindow, pause(FOCUS_SETTLE_MS)];
    let scrolls = Seq::new(SCROLL_RESET_COUNT as nat, |i: int| Step::ScrollUp);
    let tail = seq![pause(SCROLL_SETTLE_MS)];
    let pre = reset_steps() + slot_steps(slot);
    let post = confirm_steps() + credential_steps(password);
    assert(login_steps(slot, password) =~= pre + post);
    assert forall|i: int| 0 <= i < pre.len() implies !is_confirm(#[trigger] pre[i]) by {
        if i >= reset_steps().len() {
            assert(pre[i] == slot_steps(slot)[i - reset_steps().len()]);
        }
    }
    lemma_count_prefix(pre, post, down);
    lemma_count_prefix(pre, post, up);
    assert(is_confirm(post[0]));
    lemma_count_join(head + scrolls, tail, down);
    lemma_count_join(head, scrolls, down);
    lemma_count_join(reset_steps(), slot_steps(slot), down);
    lemma_count_join(head + scrolls, tail, up);
    lemma_count_join(head, scrolls, up);
    lemma_count_join(reset_steps(), slot_steps(slot), up);
    lemma_count_repeated(SCROLL_RESET_COUNT as nat, Step::ScrollUp, down);
    lemma_count_repeated(SCROLL_RESET_COUNT as nat, Step::ScrollUp, up);
    lemma_count_repeated(slot as nat, key(VK_DOWN, SLOT_MOVE_HOLD_MS), down);
    lemma_count_repeated(slot as nat, key(VK_DOWN, SLOT_MOVE_HOLD_MS), up);
    reveal_with_fuel(count_all, 4);
    assert(reset_steps() == head + scrolls + tail);
}

} // verus!

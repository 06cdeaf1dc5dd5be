use vstd::prelude::*;

verus! {

/// Offset of the byte holding the slot the client last selected.
pub const SLOT_OFFSET: usize = 0x64;

/// Offset of the byte that is nonzero when the client logs in by itself.
pub const AUTO_LOGIN_OFFSET: usize = 0x6F;

/// What the client's login settings file says.
#[derive(Clone, Copy, Debug, PartialEq, Eq, Structural)]
pub struct LoginBinInfo {
    pub current_slot: u8,
    pub auto_login_enabled: bool,
}

/// A move of the selection cursor by one slot.
#[derive(Clone, Copy, Debug, PartialEq, Eq, Structural)]
pub enum NavDirection {
    Up,
    Down,
}

/// Reads the selected slot and the auto-login flag from the settings file's
/// bytes; `None` when the file is too short to hold both.
pub fn parse_login_bin(data: &[u8]) -> (r: Option<LoginBinInfo>)
    ensures
        data@.len() <= AUTO_LOGIN_OFFSET ==> r is None,
        data@.len() > AUTO_LOGIN_OFFSET ==> r == Some(
            LoginBinInfo {
                current_slot: data@[SLOT_OFFSET as int],
                auto_login_enabled: data@[AUTO_LOGIN_OFFSET as int] != 0,
            },
        ),
{
    if data.len() <= AUTO_LOGIN_OFFSET {
        return None;
    }
    Some(
        LoginBinInfo {
            current_slot: data[SLOT_OFFSET],
            auto_login_enabled: data[AUTO_LOGIN_OFFSET] != 0,
        },
    )
}

/// The moves from slot `current` to slot `target`: `target - current` moves
/// down, or `current - target` moves up, or none.
pub open spec fn nav_moves(current: u8, target: u8) -> Seq<NavDirection> {
    if target > current {
        Seq::new((target - current) as nat, |i: int| NavDirection::Down)
    } else {
        Seq::new((current - target) as nat, |i: int| NavDirection::Up)
    }
}

/// The cursor moves that take the selection from slot `current` to `target`.
pub fn navigation_steps(current: u8, target: u8) -> (r: Vec<NavDirection>)
    ensures
        r@ == nav_moves(current, target),
{
    let (dir, n) = if target > current {
        (NavDirection::Down, target - current)
    } else {
        (NavDirection::Up, current - target)
    };
    let mut v: Vec<NavDirection> = Vec::new();
    let mut k: u8 = 0;
    while k < n
        invariant
            k <= n,
            v@ =~= Seq::new(k as nat, |i: int| dir),
            nav_moves(current, target) =~= Seq::new(n as nat, |i: int| dir),
        decreases n - k,
    {
        v.push(dir);
        k = k + 1;
    }
    v
}

} // verus!

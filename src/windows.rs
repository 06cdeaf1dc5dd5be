use vstd::prelude::*;

verus! {

/// An operating-system window, compared by value and never dereferenced here.
#[derive(Clone, Copy, Debug, PartialEq, Eq, Structural)]
pub struct WindowHandle {
    pub raw: isize,
}

/// A window that is neither in the snapshot taken before the launch nor
/// already claimed.
pub open spec fn is_new(h: WindowHandle, before: Seq<WindowHandle>, excluding: Seq<WindowHandle>) -> bool {
    !before.contains(h) && !excluding.contains(h)
}

/// The first window of `after` that is new, scanning in enumeration order.
pub open spec fn first_new(after: Seq<WindowHandle>, before: Seq<WindowHandle>, excluding: Seq<
    WindowHandle,
>) -> Option<WindowHandle>
    decreases after.len(),
{
    if after.len() == 0 {
        None
    } else if is_new(after[0], before, excluding) {
        Some(after[0])
    } else {
        first_new(after.drop_first(), before, excluding)
    }
}

proof fn lemma_first_new_at(
    after: Seq<WindowHandle>,
    before: Seq<WindowHandle>,
    excluding: Seq<WindowHandle>,
    i: int,
)
    requires
        0 <= i <= after.len(),
        forall|j: int| 0 <= j < i ==> !is_new(#[trigger] after[j], before, excluding),
    ensures
        i < after.len() && is_new(after[i], before, excluding) ==> first_new(after, before, excluding)
            == Some(after[i]),
        i == after.len() ==> first_new(after, before, excluding) is None,
    decreases i,
{
    if i > 0 {
        let rest = after.drop_first();
        assert forall|j: int| 0 <= j < i - 1 implies !is_new(#[trigger] rest[j], before, excluding) by {
            assert(rest[j] == after[j + 1]);
        }
        lemma_first_new_at(rest, before, excluding, i - 1);
        if i < after.len() {
            assert(rest[i - 1] == after[i]);
        }
    }
}

fn holds(list: &[WindowHandle], h: WindowHandle) -> (r: bool)
    ensures
        r == list@.contains(h),
{
    let mut i: usize = 0;
    while i < list.len()
        invariant
            i <= list@.len(),
            forall|j: int| 0 <= j < i ==> list@[j] != h,
        decreases list@.len() - i,
    {
        if list[i] == h {
            return true;
        }
        i = i + 1;
    }
    false
}

/// The first window of `after`, in its enumeration order, that is in neither
/// `before` nor `excluding`; `None` when there is no such window.
pub fn diff_new(after: &[WindowHandle], before: &[WindowHandle], excluding: &[WindowHandle]) -> (r:
    Option<WindowHandle>)
    ensures
        r == first_new(after@, before@, excluding@),
        r matches Some(h) ==> exists|i: int|
            0 <= i < after@.len() && after@[i] == h && is_new(h, before@, excluding@) && forall|
                j: int,
            |
                0 <= j < i ==> !is_new(#[trigger] after@[j], before@, excluding@),
        r is None ==> forall|i: int|
            0 <= i < after@.len() ==> !is_new(#[trigger] after@[i], before@, excluding@),
{
    let mut i: usize = 0;
    while i < after.len()
        invariant
            i <= after@.len(),
            forall|j: int| 0 <= j < i ==> !is_new(#[trigger] after@[j], before@, excluding@),
        decreases after@.len() - i,
    {
        let h = after[i];
        if !holds(before, h) && !holds(excluding, h) {
            proof {
                lemma_first_new_at(after@, before@, excluding@, i as int);
            }
            return Some(h);
        }
        i = i + 1;
    }
    proof {
        lemma_first_new_at(after@, before@, excluding@, i as int);
    }
    None
}

/// Title prefix shared by every client window.
pub fn client_title_prefix() -> (r: &'static str)
    ensures
        r@ == "PlayOnline Viewer"@,
{
    "PlayOnline Viewer"
}

/// The title given to a character's window once it is found: the client prefix,
/// a dash, and the character's name.
pub fn window_title(name: &str) -> (r: String)
    ensures
        r@ == "PlayOnline Viewer - "@ + name@,
{
    let mut t = String::from_str("PlayOnline Viewer - ");
    t.append(name);
    t
}

} // verus!

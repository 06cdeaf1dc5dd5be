use vstd::prelude::*;

use crate::errors::ErrorKind;
use crate::windows::{diff_new, first_new, WindowHandle};

verus! {

/// Pause before each look for the new client window.
pub const POLL_INTERVAL_MS: u64 = 500;

/// Looks for the new window per launch: with the interval, a thirty-second limit.
pub const MAX_POLLS: u32 = 60;

/// A character's launch and discovery is tried this many times before it is
/// skipped.
pub const LAUNCH_ATTEMPTS: u8 = 2;

/// A character whose client window was found: `character` indexes the list of
/// characters the launch phase was given.
#[derive(Clone, Copy, Debug, PartialEq, Eq, Structural)]
pub struct LaunchedCharacter {
    pub character: usize,
    pub hwnd: WindowHandle,
}

/// What the caller must do next for the launch phase. Each action is answered
/// with one `LaunchEvent` through `LaunchSequence::step`.
#[derive(Clone, Copy, Debug, PartialEq, Eq, Structural)]
pub enum LaunchAction {
    /// List the visible client windows now; answer with `Windows`.
    Snapshot,
    /// Start the client for `character`; answer `Launched` or `LaunchFailed`.
    Launch { character: usize },
    /// Wait `ms`, then list the visible client windows; answer with `Windows`.
    PollAfter { ms: u64 },
    /// Retitle `hwnd` after `character`; answer `Completed`.
    Rename { character: usize, hwnd: WindowHandle },
    /// Record that attempt `attempt` (from 0) for `character` failed with `error`;
    /// answer `Completed`.
    Report { character: usize, attempt: u8, error: ErrorKind },
    /// Wait `seconds` before the next launch; answer `Completed`.
    Stagger { seconds: u64 },
    /// Every character has been handled.
    Finished,
}

/// The answer to the last action.
#[derive(Clone, Debug)]
pub enum LaunchEvent {
    Completed,
    Launched,
    LaunchFailed,
    Windows(Vec<WindowHandle>),
}

/// What a `LaunchEvent` says, with the window list as a sequence.
pub ghost enum LaunchReply {
    Completed,
    Launched,
    LaunchFailed,
    Windows(Seq<WindowHandle>),
}

impl View for LaunchEvent {
    type V = LaunchReply;

    open spec fn view(&self) -> LaunchReply {
        match self {
            LaunchEvent::Completed => LaunchReply::Completed,
            LaunchEvent::Launched => LaunchReply::Launched,
            LaunchEvent::LaunchFailed => LaunchReply::LaunchFailed,
            LaunchEvent::Windows(ws) => LaunchReply::Windows(ws@),
        }
    }
}

/// The windows an answer lists; any other answer lists none.
pub open spec fn listed(e: LaunchReply) -> Seq<WindowHandle> {
    match e {
        LaunchReply::Windows(ws) => ws,
        _ => Seq::empty(),
    }
}

/// Where the launch phase stands; each stage names the action whose answer it
/// waits for.
#[derive(Clone, Copy, Debug, PartialEq, Eq, Structural)]
pub enum LaunchStage {
    Snapshotting,
    Launching,
    Polling,
    Renaming,
    Reporting,
    Staggering,
    Done,
}

/// The launch phase: each character in order is launched and its new window
/// found, with one more try on failure, then the next character.
pub struct LaunchSequence {
    count: usize,
    launch_delay_seconds: u64,
    index: usize,
    attempt: u8,
    polls: u32,
    stage: LaunchStage,
    before: Vec<WindowHandle>,
    claimed: Vec<WindowHandle>,
    launched: Vec<LaunchedCharacter>,
    failed: Vec<usize>,
}

/// The launch phase's state as plain values.
pub ghost struct LaunchState {
    pub count: usize,
    pub launch_delay_seconds: u64,
    pub index: usize,
    pub attempt: u8,
    pub polls: u32,
    pub stage: LaunchStage,
    /// The windows that were there before the current launch.
    pub before: Seq<WindowHandle>,
    /// The windows of `launched`, in the same order.
    pub claimed: Seq<WindowHandle>,
    pub launched: Seq<LaunchedCharacter>,
    /// The characters that were skipped after their last try failed.
    pub failed: Seq<usize>,
}

impl View for LaunchSequence {
    type V = LaunchState;

    closed spec fn view(&self) -> LaunchState {
        LaunchState {
            count: self.count,
            launch_delay_seconds: self.launch_delay_seconds,
            index: self.index,
            attempt: self.attempt,
            polls: self.polls,
            stage: self.stage,
            before: self.before@,
            claimed: self.claimed@,
            launched: self.launched@,
            failed: self.failed@,
        }
    }
}

/// Moving on after the current character: a stagger pause when another follows.
pub open spec fn launch_advance(s: LaunchState) -> (LaunchState, LaunchAction) {
    if s.index + 1 < s.count {
        (
            LaunchState {
                index: (s.index + 1) as usize,
                attempt: 0,
                stage: LaunchStage::Staggering,
                ..s
            },
            LaunchAction::Stagger { seconds: s.launch_delay_seconds },
        )
    } else {
        (
            LaunchState { index: s.count, attempt: 0, stage: LaunchStage::Done, ..s },
            LaunchAction::Finished,
        )
    }
}

/// A failed try of the current character, to be reported.
pub open spec fn launch_fail(s: LaunchState, error: ErrorKind) -> (LaunchState, LaunchAction) {
    (
        LaunchState { stage: LaunchStage::Reporting, ..s },
        LaunchAction::Report { character: s.index, attempt: s.attempt, error },
    )
}

/// The launch phase's transition: from the state and the answer to the last
/// action, the next state and the next action.
pub open spec fn launch_next(s: LaunchState, e: LaunchReply) -> (LaunchState, LaunchAction) {
    match s.stage {
        LaunchStage::Snapshotting => (
            LaunchState { before: listed(e), stage: LaunchStage::Launching, ..s },
            LaunchAction::Launch { character: s.index },
        ),
        LaunchStage::Launching => if e is Launched {
            (
                LaunchState { polls: 0, stage: LaunchStage::Polling, ..s },
                LaunchAction::PollAfter { ms: POLL_INTERVAL_MS },
            )
        } else {
            launch_fail(s, ErrorKind::Launch)
        },
        LaunchStage::Polling => match first_new(listed(e), s.before, s.claimed) {
            Some(h) => (
                LaunchState {
                    claimed: s.claimed.push(h),
                    launched: s.launched.push(LaunchedCharacter { character: s.index, hwnd: h }),
                    stage: LaunchStage::Renaming,
                    ..s
                },
                LaunchAction::Rename { character: s.index, hwnd: h },
            ),
            None => if s.polls + 1 < MAX_POLLS {
                (
                    LaunchState { polls: (s.polls + 1) as u32, ..s },
                    LaunchAction::PollAfter { ms: POLL_INTERVAL_MS },
                )
            } else {
                launch_fail(s, ErrorKind::DiscoveryTimeout)
            },
        },
        LaunchStage::Renaming => launch_advance(s),
        LaunchStage::Reporting => if s.attempt + 1 < LAUNCH_ATTEMPTS {
            (
                LaunchState {
                    attempt: (s.attempt + 1) as u8,
                    stage: LaunchStage::Snapshotting,
                    ..s
                },
                LaunchAction::Snapshot,
            )
        } else {
            launch_advance(LaunchState { failed: s.failed.push(s.index), ..s })
        },
        LaunchStage::Staggering => (
            LaunchState { stage: LaunchStage::Snapshotting, ..s },
            LaunchAction::Snapshot,
        ),
        LaunchStage::Done => (s, LaunchAction::Finished),
    }
}

/// The state a new launch phase starts in and its first action.
pub open spec fn launch_start(count: usize, launch_delay_seconds: u64) -> (LaunchState, LaunchAction) {
    let s = LaunchState {
        count,
        launch_delay_seconds,
        index: 0,
        attempt: 0,
        polls: 0,
        stage: LaunchStage::Snapshotting,
        before: Seq::empty(),
        claimed: Seq::empty(),
        launched: Seq::empty(),
        failed: Seq::empty(),
    };
    if count == 0 {
        (LaunchState { stage: LaunchStage::Done, ..s }, LaunchAction::Finished)
    } else {
        (s, LaunchAction::Snapshot)
    }
}

/// The launch phase's invariant: counters in range; the found characters and
/// the skipped ones are each in configuration order, below the current one, and
/// together account for every character handled so far; every found window is
/// a different one, and `claimed` lists them.
pub open spec fn launch_wf(s: LaunchState) -> bool {
    let handled = if s.stage == LaunchStage::Renaming {
        s.index + 1
    } else {
        s.index as int
    };
    &&& s.index <= s.count
    &&& (s.stage == LaunchStage::Done <==> s.index == s.count)
    &&& s.attempt < LAUNCH_ATTEMPTS
    &&& s.polls < MAX_POLLS
    &&& s.claimed.len() == s.launched.len()
    &&& forall|i: int| 0 <= i < s.launched.len() ==> #[trigger] s.claimed[i] == s.launched[i].hwnd
    &&& forall|i: int, j: int|
        0 <= i < j < s.launched.len() ==> #[trigger] s.launched[i].character
            < #[trigger] s.launched[j].character && s.launched[i].hwnd != s.launched[j].hwnd
    &&& forall|i: int| 0 <= i < s.launched.len() ==> #[trigger] s.launched[i].character < handled
    &&& forall|i: int, j: int|
        0 <= i < j < s.failed.len() ==> #[trigger] s.failed[i] < #[trigger] s.failed[j]
    &&& forall|i: int| 0 <= i < s.failed.len() ==> #[trigger] s.failed[i] < s.index
    &&& s.launched.len() + s.failed.len() == handled
    &&& s.stage == LaunchStage::Renaming ==> s.launched.len() > 0 && s.launched.last().character
        == s.index
}

/// Every transition keeps the launch phase's invariant.
pub proof fn lemma_launch_next_wf(s: LaunchState, e: LaunchReply)
    requires
        launch_wf(s),
    ensures
        launch_wf(launch_next(s, e).0),
{
    let r = launch_next(s, e).0;
    match s.stage {
        LaunchStage::Polling => {
            match first_new(listed(e), s.before, s.claimed) {
                Some(h) => {
                    lemma_first_new_unclaimed(listed(e), s.before, s.claimed);
                    assert forall|i: int| 0 <= i < s.launched.len() implies s.launched[i].hwnd != h by {
                        assert(s.claimed[i] == s.launched[i].hwnd);
                        assert(s.claimed.contains(s.claimed[i]));
                    }
                    assert(forall|i: int| 0 <= i < s.launched.len() ==> r.launched[i] == s.launched[i]);
                    assert(r.launched.last().character == s.index);
                    assert(launch_wf(r));
                },
                None => {
                    assert(launch_wf(r));
                },
            }
        },
        LaunchStage::Renaming => {
            assert(launch_wf(r));
        },
        LaunchStage::Reporting => {
            if s.attempt + 1 < LAUNCH_ATTEMPTS {
                assert(launch_wf(r));
            } else {
                let t = LaunchState { failed: s.failed.push(s.index), ..s };
                assert(forall|i: int| 0 <= i < s.failed.len() ==> t.failed[i] == s.failed[i]);
                assert(launch_wf(r));
            }
        },
        _ => {
            assert(launch_wf(r));
        },
    }
}

proof fn lemma_first_new_unclaimed(
    after: Seq<WindowHandle>,
    before: Seq<WindowHandle>,
    excluding: Seq<WindowHandle>,
)
    ensures
        first_new(after, before, excluding) matches Some(h) ==> !excluding.contains(h),
    decreases after.len(),
{
    if after.len() > 0 {
        lemma_first_new_unclaimed(after.drop_first(), before, excluding);
    }
}


/// The state after answering the actions with `evs`, in order.
pub open spec fn launch_after(s: LaunchState, evs: Seq<LaunchReply>) -> LaunchState
    decreases evs.len(),
{
    if evs.len() == 0 {
        s
    } else {
        launch_next(launch_after(s, evs.drop_last()), evs.last()).0
    }
}

/// The action that answering the last of `evs` brings, after the others.
pub open spec fn launch_last_action(s: LaunchState, evs: Seq<LaunchReply>) -> LaunchAction
    recommends
        evs.len() > 0,
{
    launch_next(launch_after(s, evs.drop_last()), evs.last()).1
}

proof fn lemma_after_concat(s: LaunchState, a: Seq<LaunchReply>, b: Seq<LaunchReply>)
    ensures
        launch_after(s, a + b) == launch_after(launch_after(s, a), b),
    decreases b.len(),
{
    if b.len() == 0 {
        assert(a + b =~= a);
    } else {
        assert((a + b).drop_last() =~= a + b.drop_last());
        assert((a + b).last() == b.last());
        lemma_after_concat(s, a, b.drop_last());
    }
}

proof fn lemma_after_one(s: LaunchState, e: LaunchReply)
    ensures
        launch_after(s, seq![e]) == launch_next(s, e).0,
{
    let one = seq![e];
    assert(one.drop_last() =~= Seq::<LaunchReply>::empty());
    assert(one.last() == e);
    assert(launch_after(s, one.drop_last()) == s);
}

/// No reply among `polls` lists a window that is new against `before` and
/// `claimed`.
pub open spec fn polls_find_nothing(
    polls: Seq<LaunchReply>,
    before: Seq<WindowHandle>,
    claimed: Seq<WindowHandle>,
) -> bool {
    forall|k: int| 0 <= k < polls.len() ==> first_new(listed(#[trigger] polls[k]), before, claimed) is None
}

proof fn lemma_polls_prefix(p: LaunchState, polls: Seq<LaunchReply>, k: int)
    requires
        p.stage == LaunchStage::Polling,
        0 <= k <= polls.len(),
        p.polls + k < MAX_POLLS,
        polls_find_nothing(polls, p.before, p.claimed),
    ensures
        launch_after(p, polls.take(k)) == (LaunchState { polls: (p.polls + k) as u32, ..p }),
    decreases k,
{
    if k == 0 {
        assert(polls.take(0) =~= Seq::<LaunchReply>::empty());
    } else {
        lemma_polls_prefix(p, polls, k - 1);
        assert(polls.take(k).drop_last() =~= polls.take(k - 1));
        assert(polls.take(k).last() == polls[k - 1]);
    }
}

/// One try at a character when its client starts but no new window shows in
/// any of the `MAX_POLLS` looks: the try ends in a timeout report, and nothing
/// is found or skipped yet.
pub proof fn lemma_try_times_out(s: LaunchState, snap: LaunchReply, polls: Seq<LaunchReply>)
    requires
        s.stage == LaunchStage::Snapshotting,
        polls.len() == MAX_POLLS,
        polls_find_nothing(polls, listed(snap), s.claimed),
    ensures
        ({
            let evs = seq![snap, LaunchReply::Launched] + polls;
            let r = launch_after(s, evs);
            &&& r == LaunchState {
                stage: LaunchStage::Reporting,
                before: listed(snap),
                polls: (MAX_POLLS - 1) as u32,
                ..s
            }
            &&& launch_last_action(s, evs) == LaunchAction::Report {
                character: s.index,
                attempt: s.attempt,
                error: ErrorKind::DiscoveryTimeout,
            }
        }),
{
    let head = seq![snap, LaunchReply::Launched];
    let evs = head + polls;
    lemma_after_one(s, snap);
    let s1 = launch_next(s, snap).0;
    assert(head =~= seq![snap] + seq![LaunchReply::Launched]);
    lemma_after_concat(s, seq![snap], seq![LaunchReply::Launched]);
    lemma_after_one(s1, LaunchReply::Launched);
    let p = launch_after(s, head);
    assert(p == LaunchState { stage: LaunchStage::Polling, before: listed(snap), polls: 0, ..s });
    let last = (MAX_POLLS - 1) as int;
    lemma_polls_prefix(p, polls, last);
    assert(evs.drop_last() =~= head + polls.take(last));
    lemma_after_concat(s, head, polls.take(last));
    assert(evs.last() == polls[last]);
    assert(first_new(listed(polls[last]), p.before, p.claimed) is None);
}

/// A character whose two tries both time out is recorded as skipped, no window
/// is claimed for it, and the batch moves on: a stagger pause before the next
/// character when there is one, else the end of the phase.
pub proof fn lemma_character_times_out(
    s: LaunchState,
    snap1: LaunchReply,
    polls1: Seq<LaunchReply>,
    snap2: LaunchReply,
    polls2: Seq<LaunchReply>,
)
    requires
        launch_wf(s),
        s.stage == LaunchStage::Snapshotting,
        s.attempt == 0,
        polls1.len() == MAX_POLLS,
        polls2.len() == MAX_POLLS,
        polls_find_nothing(polls1, listed(snap1), s.claimed),
        polls_find_nothing(polls2, listed(snap2), s.claimed),
    ensures
        ({
            let evs = seq![snap1, LaunchReply::Launched] + polls1 + seq![LaunchReply::Completed]
                + seq![snap2, LaunchReply::Launched] + polls2 + seq![LaunchReply::Completed];
            let r = launch_after(s, evs);
            &&& r.failed == s.failed.push(s.index)
            &&& r.launched == s.launched
            &&& r.claimed == s.claimed
            &&& s.index + 1 < s.count ==> r.stage == LaunchStage::Staggering && r.index == s.index + 1
                && launch_last_action(s, evs) == LaunchAction::Stagger {
                seconds: s.launch_delay_seconds,
            }
            &&& s.index + 1 >= s.count ==> r.stage == LaunchStage::Done && launch_last_action(s, evs)
                == LaunchAction::Finished
        }),
{
    let try1 = seq![snap1, LaunchReply::Launched] + polls1;
    let try2 = seq![snap2, LaunchReply::Launched] + polls2;
    let done = seq![LaunchReply::Completed];
    lemma_try_times_out(s, snap1, polls1);
    let r1 = launch_after(s, try1);
    lemma_after_concat(s, try1, done);
    lemma_after_one(r1, LaunchReply::Completed);
    let s2 = launch_after(s, try1 + done);
    assert(s2.stage == LaunchStage::Snapshotting && s2.attempt == 1 && s2.claimed == s.claimed);
    lemma_try_times_out(s2, snap2, polls2);
    let r2 = launch_after(s2, try2);
    lemma_after_concat(s, try1 + done, try2);
    let evs = try1 + done + try2 + done;
    assert(evs =~= seq![snap1, LaunchReply::Launched] + polls1 + seq![LaunchReply::Completed]
        + seq![snap2, LaunchReply::Launched] + polls2 + seq![LaunchReply::Completed]);
    assert(evs.drop_last() =~= try1 + done + try2);
    assert(evs.last() == LaunchReply::Completed);
}

/// A character whose client starts and whose new window shows at the first
/// look is recorded with that window, after those found before it, and the
/// batch moves on.
pub proof fn lemma_character_found(
    s: LaunchState,
    snap: LaunchReply,
    poll: LaunchReply,
    h: WindowHandle,
)
    requires
        s.stage == LaunchStage::Snapshotting,
        first_new(listed(poll), listed(snap), s.claimed) == Some(h),
    ensures
        ({
            let evs = seq![snap, LaunchReply::Launched, poll, LaunchReply::Completed];
            let r = launch_after(s, evs);
            &&& r.launched == s.launched.push(LaunchedCharacter { character: s.index, hwnd: h })
            &&& r.failed == s.failed
            &&& s.index + 1 < s.count ==> r.stage == LaunchStage::Staggering && r.index == s.index + 1
            &&& s.index + 1 >= s.count ==> r.stage == LaunchStage::Done
        }),
{
    let evs = seq![snap, LaunchReply::Launched, poll, LaunchReply::Completed];
    let e3 = seq![snap, LaunchReply::Launched, poll];
    let e2 = seq![snap, LaunchReply::Launched];
    assert(evs.drop_last() =~= e3);
    assert(evs.last() == LaunchReply::Completed);
    assert(e3.drop_last() =~= e2);
    assert(e3.last() == poll);
    assert(e2.drop_last() =~= seq![snap]);
    assert(e2.last() == LaunchReply::Launched);
    lemma_after_one(s, snap);
    let s1 = launch_after(s, seq![snap]);
    assert(s1 == launch_next(s, snap).0);
    let s2 = launch_after(s, e2);
    assert(s2 == launch_next(s1, LaunchReply::Launched).0);
    assert(s2.stage == LaunchStage::Polling && s2.before == listed(snap) && s2.claimed == s.claimed);
    let s3 = launch_after(s, e3);
    assert(s3 == launch_next(s2, poll).0);
    assert(s3.launched == s.launched.push(LaunchedCharacter { character: s.index, hwnd: h }));
    assert(launch_after(s, evs) == launch_next(s3, LaunchReply::Completed).0);
}

proof fn lemma_increasing_lower(l: Seq<LaunchedCharacter>, i: int)
    requires
        0 <= i < l.len(),
        forall|a: int, b: int| 0 <= a < b < l.len() ==> #[trigger] l[a].character < #[trigger] l[b].character,
    ensures
        l[i].character >= i,
    decreases i,
{
    if i > 0 {
        lemma_increasing_lower(l, i - 1);
        assert(l[i - 1].character < l[i].character);
    }
}

proof fn lemma_increasing_upper(l: Seq<LaunchedCharacter>, n: int, i: int)
    requires
        0 <= i < l.len(),
        l.len() == n,
        forall|a: int, b: int| 0 <= a < b < l.len() ==> #[trigger] l[a].character < #[trigger] l[b].character,
        forall|a: int| 0 <= a < l.len() ==> #[trigger] l[a].character < n,
    ensures
        l[i].character <= i,
    decreases n - i,
{
    if i + 1 < n {
        lemma_increasing_upper(l, n, i + 1);
        assert(l[i].character < l[i + 1].character);
    }
}

/// When the launch phase ends with no character skipped, every character was
/// found, each once, in configuration order.
pub proof fn lemma_all_found_in_order(s: LaunchState)
    requires
        launch_wf(s),
        s.stage == LaunchStage::Done,
        s.failed.len() == 0,
    ensures
        s.launched.len() == s.count,
        forall|i: int| 0 <= i < s.launched.len() ==> #[trigger] s.launched[i].character == i,
{
    let l = s.launched;
    assert forall|i: int| 0 <= i < l.len() implies #[trigger] l[i].character == i by {
        lemma_increasing_lower(l, i);
        lemma_increasing_upper(l, s.count as int, i);
    }
}

impl LaunchSequence {
    pub open spec fn wf(&self) -> bool {
        launch_wf(self@)
    }

    /// A launch phase over `count` characters with `launch_delay_seconds` between
    /// two launches, and its first action.
    pub fn new(count: usize, launch_delay_seconds: u64) -> (r: (LaunchSequence, LaunchAction))
        ensures
            (r.0@, r.1) == launch_start(count, launch_delay_seconds),
            r.0.wf(),
    {
        let s = LaunchSequence {
            count,
            launch_delay_seconds,
            index: 0,
            attempt: 0,
            polls: 0,
            stage: if count == 0 {
                LaunchStage::Done
            } else {
                LaunchStage::Snapshotting
            },
            before: Vec::new(),
            claimed: Vec::new(),
            launched: Vec::new(),
            failed: Vec::new(),
        };
        proof {
            assert(s@.before =~= Seq::<WindowHandle>::empty());
            assert(s@.claimed =~= Seq::<WindowHandle>::empty());
            assert(s@.launched =~= Seq::<LaunchedCharacter>::empty());
            assert(s@.failed =~= Seq::<usize>::empty());
        }
        if count == 0 {
            (s, LaunchAction::Finished)
        } else {
            (s, LaunchAction::Snapshot)
        }
    }

    fn advance(&mut self) -> (r: LaunchAction)
        ensures
            (final(self)@, r) == launch_advance(old(self)@),
    {
        self.attempt = 0;
        if self.count > 0 && self.index < self.count - 1 {
            self.index = self.index + 1;
            self.stage = LaunchStage::Staggering;
            LaunchAction::Stagger { seconds: self.launch_delay_seconds }
        } else {
            self.index = self.count;
            self.stage = LaunchStage::Done;
            LaunchAction::Finished
        }
    }

    /// Takes the answer to the last action and returns the next action; the new
    /// state and the action are exactly those of `launch_next`, and the
    /// invariant is kept.
    pub fn step(&mut self, e: LaunchEvent) -> (r: LaunchAction)
        ensures
            (final(self)@, r) == launch_next(old(self)@, e@),
            old(self).wf() ==> final(self).wf(),
    {
        proof {
            if self.wf() {
                lemma_launch_next_wf(self@, e@);
            }
        }
        let ghost reply = e@;
        match self.stage {
            LaunchStage::Snapshotting => {
                self.before = match e {
                    LaunchEvent::Windows(ws) => ws,
                    _ => Vec::new(),
                };
                proof {
                    assert(self.before@ =~= listed(reply));
                }
                self.stage = LaunchStage::Launching;
                LaunchAction::Launch { character: self.index }
            },
            LaunchStage::Launching => {
                if matches!(e, LaunchEvent::Launched) {
                    self.polls = 0;
                    self.stage = LaunchStage::Polling;
                    LaunchAction::PollAfter { ms: POLL_INTERVAL_MS }
                } else {
                    self.stage = LaunchStage::Reporting;
                    LaunchAction::Report {
                        character: self.index,
                        attempt: self.attempt,
                        error: ErrorKind::Launch,
                    }
                }
            },
            LaunchStage::Polling => {
                let ws = match e {
                    LaunchEvent::Windows(ws) => ws,
                    _ => Vec::new(),
                };
                proof {
                    assert(ws@ =~= listed(reply));
                }
                match diff_new(ws.as_slice(), self.before.as_slice(), self.claimed.as_slice()) {
                    Some(h) => {
                        self.claimed.push(h);
                        self.launched.push(LaunchedCharacter { character: self.index, hwnd: h });
                        self.stage = LaunchStage::Renaming;
                        LaunchAction::Rename { character: self.index, hwnd: h }
                    },
                    None => {
                        if self.polls < MAX_POLLS - 1 {
                            self.polls = self.polls + 1;
                            LaunchAction::PollAfter { ms: POLL_INTERVAL_MS }
                        } else {
                            self.stage = LaunchStage::Reporting;
                            LaunchAction::Report {
                                character: self.index,
                                attempt: self.attempt,
                                error: ErrorKind::DiscoveryTimeout,
                            }
                        }
                    },
                }
            },
            LaunchStage::Renaming => self.advance(),
            LaunchStage::Reporting => {
                if self.attempt < LAUNCH_ATTEMPTS - 1 {
                    self.attempt = self.attempt + 1;
                    self.stage = LaunchStage::Snapshotting;
                    LaunchAction::Snapshot
                } else {
                    self.failed.push(self.index);
                    self.advance()
                }
            },
            LaunchStage::Staggering => {
                self.stage = LaunchStage::Snapshotting;
                LaunchAction::Snapshot
            },
            LaunchStage::Done => LaunchAction::Finished,
        }
    }

    /// The characters whose window was found, in configuration order.
    pub fn launched(&self) -> (r: &Vec<LaunchedCharacter>)
        ensures
            r@ == self@.launched,
    {
        &self.launched
    }

    /// The characters skipped after their last try failed, in configuration order.
    pub fn failed(&self) -> (r: &Vec<usize>)
        ensures
            r@ == self@.failed,
    {
        &self.failed
    }

    /// Whether every character has been handled.
    pub fn is_done(&self) -> (r: bool)
        ensures
            r == (self@.stage == LaunchStage::Done),
    {
        self.stage == LaunchStage::Done
    }
}


/// The argument that makes the launcher open `profile` directly.
pub fn profile_argument(profile: &str) -> (r: String)
    ensures
        r@ == "-p=\""@ + profile@ + "\""@,
{
    let mut s = String::from_str("-p=\"");
    s.append(profile);
    s.append("\"");
    s
}

/// The command line that starts `exe`: its path in quotes, then the arguments
/// after a space when there are any.
pub fn command_line(exe: &str, args: Option<&str>) -> (r: String)
    ensures
        args is None ==> r@ == "\""@ + exe@ + "\""@,
        args matches Some(a) ==> r@ == "\""@ + exe@ + "\" "@ + a@,
{
    let mut s = String::from_str("\"");
    s.append(exe);
    match args {
        Some(a) => {
            s.append("\" ");
            s.append(a);
        },
        None => {
            s.append("\"");
        },
    }
    s
}

/// The step name a failed launch try is logged under.
pub fn launch_step_name(attempt: u8) -> (r: &'static str)
    ensures
        attempt == 0 ==> r@ == "launch"@,
        attempt != 0 ==> r@ == "launch (retry)"@,
{
    if attempt == 0 {
        "launch"
    } else {
        "launch (retry)"
    }
}

} // verus!

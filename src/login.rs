use vstd::prelude::*;

use crate::errors::ErrorKind;

verus! {

/// What the caller must do next for the login phase. Each action is answered
/// with one `LoginEvent` through `LoginSession::step`.
#[derive(Clone, Copy, Debug, PartialEq, Eq, Structural)]
pub enum LoginAction {
    /// Bind the redirect listener on `port` and start serving one request.
    StartProxy { port: u16 },
    /// Append the tagged redirect entry to the hosts table.
    AddRedirect,
    /// Suppress the operator's keyboard and mouse.
    BlockInput,
    /// Run the login script of launched character `character` against its window.
    RunScript { character: usize },
    /// Give keyboard and mouse back to the operator.
    UnblockInput,
    /// Wait for the listener to serve its one request; answer `Failed` when the
    /// wait ends without it.
    AwaitProxy,
    /// Remove every tagged line from the hosts table.
    RemoveRedirect,
    /// Stop the listener without waiting for a request and free its port.
    ShutdownProxy,
    /// Record that `character` failed at `step` with `error`.
    Report { character: usize, step: LoginStep, error: ErrorKind },
    /// Ask the operator whether to retry `character` or skip it.
    AskOperator { character: usize },
    /// Wait `seconds` before the next character.
    Stagger { seconds: u64 },
    /// Remove every tagged line after an interruption; a failure is only logged.
    CleanupStale,
    /// Leave the process after an interruption.
    Exit,
    /// Every character has been handled.
    Finished,
}

/// The step of an attempt at which a failure happened.
#[derive(Clone, Copy, Debug, PartialEq, Eq, Structural)]
pub enum LoginStep {
    ReleaseStale,
    StartProxy,
    AddRedirect,
    RunScript,
    AwaitProxy,
    RemoveRedirect,
}

/// The answer to the last action.
#[derive(Clone, Copy, Debug, PartialEq, Eq, Structural)]
pub enum LoginEvent {
    Succeeded,
    Failed,
    Retry,
    Skip,
    Interrupted,
}

/// Where the session stands; each stage names the action whose answer it waits for.
#[derive(Clone, Copy, Debug, PartialEq, Eq, Structural)]
pub enum LoginStage {
    Releasing,
    StartingProxy,
    AddingRedirect,
    Blocking,
    Scripting,
    Unblocking,
    AwaitingProxy,
    Removing,
    CleanUnblocking,
    CleanRemoving,
    CleanShutting,
    Reporting,
    Asking,
    Staggering,
    Done,
    StopUnblocking,
    StopCleaning,
    StopShutting,
    Stopped,
}

/// Where the login phase stands: one attempt at a time over the launched
/// characters, with the shared redirect entry, the listener port and the input
/// block tracked as held or free.
#[derive(Clone, Copy, Debug, PartialEq, Eq, Structural)]
pub struct LoginState {
    pub count: usize,
    pub index: usize,
    pub port: u16,
    pub stagger_seconds: u64,
    pub stage: LoginStage,
    /// The listener is bound and has not finished or been shut down.
    pub proxy_open: bool,
    /// A redirect entry may be in the table: an add was made (or tried) and no
    /// removal has succeeded since.
    pub redirect_added: bool,
    /// Input is suppressed.
    pub input_blocked: bool,
    /// The one automatic retry of the current character has been used.
    pub auto_retry_used: bool,
    /// The failure that the current cleanup will report.
    pub failed_step: LoginStep,
    pub failed_error: ErrorKind,
    pub succeeded: usize,
    pub skipped: usize,
}

/// The stages in which no resource may be held by the attempt.
pub open spec fn between_attempts(st: LoginStage) -> bool {
    st == LoginStage::Releasing || st == LoginStage::StartingProxy || st == LoginStage::Reporting
        || st == LoginStage::Asking || st == LoginStage::Staggering || st == LoginStage::Done
}

impl LoginState {
    /// The session's invariant: counters in range, resources held only in the
    /// stages of a running attempt, and input blocked only while the script runs
    /// or is being cleaned up after.
    pub open spec fn wf(&self) -> bool {
        &&& self.index <= self.count
        &&& self.succeeded + self.skipped <= self.index
        &&& (self.stage == LoginStage::Done <==> self.index == self.count) || self.stage
            == LoginStage::StopUnblocking || self.stage == LoginStage::StopCleaning || self.stage
            == LoginStage::StopShutting || self.stage == LoginStage::Stopped
        &&& between_attempts(self.stage) ==> !self.proxy_open && !self.input_blocked
        &&& self.stage == LoginStage::StartingProxy ==> !self.redirect_added
        &&& self.stage == LoginStage::Releasing ==> self.redirect_added
        &&& self.stage == LoginStage::AddingRedirect ==> self.proxy_open && !self.redirect_added
        &&& self.input_blocked ==> self.stage == LoginStage::Scripting || self.stage
            == LoginStage::Unblocking || self.stage == LoginStage::CleanUnblocking || self.stage
            == LoginStage::StopUnblocking
        &&& self.stage == LoginStage::Scripting ==> self.input_blocked
        &&& self.stage == LoginStage::CleanUnblocking ==> self.input_blocked
        &&& self.stage == LoginStage::Unblocking ==> self.input_blocked
        &&& (self.stage == LoginStage::Blocking || self.stage == LoginStage::Scripting || self.stage
            == LoginStage::Unblocking) ==> self.proxy_open && self.redirect_added
        &&& self.stage == LoginStage::AwaitingProxy ==> self.proxy_open && self.redirect_added
            && !self.input_blocked
        &&& self.stage == LoginStage::Removing ==> !self.proxy_open && self.redirect_added
            && !self.input_blocked
        &&& self.stage == LoginStage::CleanRemoving ==> self.redirect_added && !self.input_blocked
        &&& self.stage == LoginStage::CleanShutting ==> self.proxy_open && !self.input_blocked
        &&& self.stage == LoginStage::StopCleaning ==> !self.input_blocked
        &&& self.stage == LoginStage::StopShutting ==> !self.input_blocked && self.proxy_open
        &&& self.stage == LoginStage::Stopped ==> !self.input_blocked && !self.proxy_open
    }
}

/// Opening an attempt for the current character: first the removal of a
/// redirect entry whose earlier removal failed, else the listener.
pub open spec fn begin_attempt(s: LoginState) -> (LoginState, LoginAction) {
    if s.redirect_added {
        (LoginState { stage: LoginStage::Releasing, ..s }, LoginAction::RemoveRedirect)
    } else {
        (LoginState { stage: LoginStage::StartingProxy, ..s }, LoginAction::StartProxy { port: s.port })
    }
}

/// Moving on to the character after the current one.
pub open spec fn next_character(s: LoginState) -> (LoginState, LoginAction) {
    let t = LoginState { index: (s.index + 1) as usize, auto_retry_used: false, ..s };
    if t.index < t.count {
        begin_attempt(t)
    } else {
        (LoginState { stage: LoginStage::Done, ..t }, LoginAction::Finished)
    }
}

/// Cleanup after a failure, from position `from` on (0: input, 1: redirect
/// entry, 2: listener): the first resource still held is released; once none
/// is, the failure is reported.
pub open spec fn cleanup_from(s: LoginState, from: int) -> (LoginState, LoginAction) {
    if from <= 0 && s.input_blocked {
        (LoginState { stage: LoginStage::CleanUnblocking, ..s }, LoginAction::UnblockInput)
    } else if from <= 1 && s.redirect_added {
        (LoginState { stage: LoginStage::CleanRemoving, ..s }, LoginAction::RemoveRedirect)
    } else if from <= 2 && s.proxy_open {
        (LoginState { stage: LoginStage::CleanShutting, ..s }, LoginAction::ShutdownProxy)
    } else {
        (
            LoginState { stage: LoginStage::Reporting, ..s },
            LoginAction::Report { character: s.index, step: s.failed_step, error: s.failed_error },
        )
    }
}

/// A failure at `step` with `error`: cleanup starts from the input block.
pub open spec fn fail(s: LoginState, step: LoginStep, error: ErrorKind) -> (LoginState, LoginAction) {
    cleanup_from(LoginState { failed_step: step, failed_error: error, ..s }, 0)
}

/// After an interruption: the listener is shut if it is open, then the process
/// leaves.
pub open spec fn stop_tail(s: LoginState) -> (LoginState, LoginAction) {
    if s.proxy_open {
        (LoginState { stage: LoginStage::StopShutting, ..s }, LoginAction::ShutdownProxy)
    } else {
        (LoginState { stage: LoginStage::Stopped, ..s }, LoginAction::Exit)
    }
}

/// The session's transition: from the state and the answer to the last action,
/// the next state and the next action.
pub open spec fn login_next(s: LoginState, e: LoginEvent) -> (LoginState, LoginAction) {
    let ok = e == LoginEvent::Succeeded;
    if e == LoginEvent::Interrupted && s.stage != LoginStage::StopUnblocking && s.stage
        != LoginStage::StopCleaning && s.stage != LoginStage::StopShutting && s.stage
        != LoginStage::Stopped {
        (LoginState { stage: LoginStage::StopUnblocking, ..s }, LoginAction::UnblockInput)
    } else {
        match s.stage {
            LoginStage::Releasing => if ok {
                begin_attempt(LoginState { redirect_added: false, ..s })
            } else {
                fail(s, LoginStep::ReleaseStale, ErrorKind::Redirect)
            },
            LoginStage::StartingProxy => if ok {
                (
                    LoginState { stage: LoginStage::AddingRedirect, proxy_open: true, ..s },
                    LoginAction::AddRedirect,
                )
            } else {
                fail(s, LoginStep::StartProxy, ErrorKind::Proxy)
            },
            LoginStage::AddingRedirect => if ok {
                (
                    LoginState { stage: LoginStage::Blocking, redirect_added: true, ..s },
                    LoginAction::BlockInput,
                )
            } else {
                fail(
                    LoginState { redirect_added: true, ..s },
                    LoginStep::AddRedirect,
                    ErrorKind::Redirect,
                )
            },
            LoginStage::Blocking => (
                LoginState { stage: LoginStage::Scripting, input_blocked: true, ..s },
                LoginAction::RunScript { character: s.index },
            ),
            LoginStage::Scripting => if ok {
                (
                    LoginState { stage: LoginStage::Unblocking, ..s },
                    LoginAction::UnblockInput,
                )
            } else {
                fail(s, LoginStep::RunScript, ErrorKind::Input)
            },
            LoginStage::Unblocking => (
                LoginState { stage: LoginStage::AwaitingProxy, input_blocked: false, ..s },
                LoginAction::AwaitProxy,
            ),
            LoginStage::AwaitingProxy => if ok {
                (
                    LoginState { stage: LoginStage::Removing, proxy_open: false, ..s },
                    LoginAction::RemoveRedirect,
                )
            } else {
                fail(s, LoginStep::AwaitProxy, ErrorKind::Proxy)
            },
            LoginStage::Removing => if ok {
                let t = LoginState {
                    redirect_added: false,
                    succeeded: (s.succeeded + 1) as usize,
                    ..s
                };
                if s.index + 1 < s.count {
                    (
                        LoginState {
                            stage: LoginStage::Staggering,
                            index: (s.index + 1) as usize,
                            auto_retry_used: false,
                            ..t
                        },
                        LoginAction::Stagger { seconds: s.stagger_seconds },
                    )
                } else {
                    next_character(t)
                }
            } else {
                cleanup_from(
                    LoginState {
                        failed_step: LoginStep::RemoveRedirect,
                        failed_error: ErrorKind::Redirect,
                        ..s
                    },
                    2,
                )
            },
            LoginStage::CleanUnblocking => cleanup_from(
                LoginState { input_blocked: false, ..s },
                1,
            ),
            LoginStage::CleanRemoving => if ok {
                cleanup_from(LoginState { redirect_added: false, ..s }, 2)
            } else {
                cleanup_from(s, 2)
            },
            LoginStage::CleanShutting => cleanup_from(LoginState { proxy_open: false, ..s }, 3),
            LoginStage::Reporting => if !s.auto_retry_used {
                begin_attempt(LoginState { auto_retry_used: true, ..s })
            } else {
                (
                    LoginState { stage: LoginStage::Asking, ..s },
                    LoginAction::AskOperator { character: s.index },
                )
            },
            LoginStage::Asking => if e == LoginEvent::Retry {
                begin_attempt(s)
            } else {
                next_character(LoginState { skipped: (s.skipped + 1) as usize, ..s })
            },
            LoginStage::Staggering => begin_attempt(s),
            LoginStage::Done => (s, LoginAction::Finished),
            LoginStage::StopUnblocking => (
                LoginState { stage: LoginStage::StopCleaning, input_blocked: false, ..s },
                LoginAction::CleanupStale,
            ),
            LoginStage::StopCleaning => stop_tail(
                if ok {
                    LoginState { redirect_added: false, ..s }
                } else {
                    s
                },
            ),
            LoginStage::StopShutting => (
                LoginState { stage: LoginStage::Stopped, proxy_open: false, ..s },
                LoginAction::Exit,
            ),
            LoginStage::Stopped => (s, LoginAction::Exit),
        }
    }
}


impl LoginState {
    fn initial(count: usize, port: u16, stagger_seconds: u64) -> (r: (LoginState, LoginAction))
        ensures
            r.0.wf(),
            r == begin_or_finish(count, port, stagger_seconds),
    {
        let s = LoginState {
            count,
            index: 0,
            port,
            stagger_seconds,
            stage: LoginStage::StartingProxy,
            proxy_open: false,
            redirect_added: false,
            input_blocked: false,
            auto_retry_used: false,
            failed_step: LoginStep::StartProxy,
            failed_error: ErrorKind::Proxy,
            succeeded: 0,
            skipped: 0,
        };
        if count == 0 {
            (LoginState { stage: LoginStage::Done, ..s }, LoginAction::Finished)
        } else {
            (s, LoginAction::StartProxy { port })
        }
    }

    fn begin_attempt(&mut self) -> (r: LoginAction)
        ensures
            (*final(self), r) == begin_attempt(*old(self)),
    {
        if self.redirect_added {
            self.stage = LoginStage::Releasing;
            LoginAction::RemoveRedirect
        } else {
            self.stage = LoginStage::StartingProxy;
            LoginAction::StartProxy { port: self.port }
        }
    }

    fn next_character(&mut self) -> (r: LoginAction)
        requires
            old(self).index < old(self).count,
        ensures
            (*final(self), r) == next_character(*old(self)),
    {
        self.index = self.index + 1;
        self.auto_retry_used = false;
        if self.index < self.count {
            self.begin_attempt()
        } else {
            self.stage = LoginStage::Done;
            LoginAction::Finished
        }
    }

    fn cleanup_from(&mut self, from: u8) -> (r: LoginAction)
        ensures
            (*final(self), r) == cleanup_from(*old(self), from as int),
    {
        if from <= 0 && self.input_blocked {
            self.stage = LoginStage::CleanUnblocking;
            LoginAction::UnblockInput
        } else if from <= 1 && self.redirect_added {
            self.stage = LoginStage::CleanRemoving;
            LoginAction::RemoveRedirect
        } else if from <= 2 && self.proxy_open {
            self.stage = LoginStage::CleanShutting;
            LoginAction::ShutdownProxy
        } else {
            self.stage = LoginStage::Reporting;
            LoginAction::Report { character: self.index, step: self.failed_step, error: self.failed_error }
        }
    }

    fn fail(&mut self, step: LoginStep, error: ErrorKind) -> (r: LoginAction)
        ensures
            (*final(self), r) == fail(*old(self), step, error),
    {
        self.failed_step = step;
        self.failed_error = error;
        self.cleanup_from(0)
    }

    fn stop_tail(&mut self) -> (r: LoginAction)
        ensures
            (*final(self), r) == stop_tail(*old(self)),
    {
        if self.proxy_open {
            self.stage = LoginStage::StopShutting;
            LoginAction::ShutdownProxy
        } else {
            self.stage = LoginStage::Stopped;
            LoginAction::Exit
        }
    }

    fn advance(&mut self, e: LoginEvent) -> (r: LoginAction)
        requires
            old(self).wf(),
        ensures
            (*final(self), r) == login_next(*old(self), e),
            final(self).wf(),
    {
        proof {
            lemma_next_wf(*self, e);
        }
        let ok = e == LoginEvent::Succeeded;
        if e == LoginEvent::Interrupted && self.stage != LoginStage::StopUnblocking && self.stage
            != LoginStage::StopCleaning && self.stage != LoginStage::StopShutting && self.stage
            != LoginStage::Stopped {
            self.stage = LoginStage::StopUnblocking;
            return LoginAction::UnblockInput;
        }
        match self.stage {
            LoginStage::Releasing => if ok {
                self.redirect_added = false;
                self.begin_attempt()
            } else {
                self.fail(LoginStep::ReleaseStale, ErrorKind::Redirect)
            },
            LoginStage::StartingProxy => if ok {
                self.stage = LoginStage::AddingRedirect;
                self.proxy_open = true;
                LoginAction::AddRedirect
            } else {
                self.fail(LoginStep::StartProxy, ErrorKind::Proxy)
            },
            LoginStage::AddingRedirect => if ok {
                self.stage = LoginStage::Blocking;
                self.redirect_added = true;
                LoginAction::BlockInput
            } else {
                self.redirect_added = true;
                self.fail(LoginStep::AddRedirect, ErrorKind::Redirect)
            },
            LoginStage::Blocking => {
                self.stage = LoginStage::Scripting;
                self.input_blocked = true;
                LoginAction::RunScript { character: self.index }
            },
            LoginStage::Scripting => if ok {
                self.stage = LoginStage::Unblocking;
                LoginAction::UnblockInput
            } else {
                self.fail(LoginStep::RunScript, ErrorKind::Input)
            },
            LoginStage::Unblocking => {
                self.stage = LoginStage::AwaitingProxy;
                self.input_blocked = false;
                LoginAction::AwaitProxy
            },
            LoginStage::AwaitingProxy => if ok {
                self.stage = LoginStage::Removing;
                self.proxy_open = false;
                LoginAction::RemoveRedirect
            } else {
                self.fail(LoginStep::AwaitProxy, ErrorKind::Proxy)
            },
            LoginStage::Removing => if ok {
                self.redirect_added = false;
                self.succeeded = self.succeeded + 1;
                if self.index + 1 < self.count {
                    self.stage = LoginStage::Staggering;
                    self.index = self.index + 1;
                    self.auto_retry_used = false;
                    LoginAction::Stagger { seconds: self.stagger_seconds }
                } else {
                    self.next_character()
                }
            } else {
                self.failed_step = LoginStep::RemoveRedirect;
                self.failed_error = ErrorKind::Redirect;
                self.cleanup_from(2)
            },
            LoginStage::CleanUnblocking => {
                self.input_blocked = false;
                self.cleanup_from(1)
            },
            LoginStage::CleanRemoving => {
                if ok {
                    self.redirect_added = false;
                }
                self.cleanup_from(2)
            },
            LoginStage::CleanShutting => {
                self.proxy_open = false;
                self.cleanup_from(3)
            },
            LoginStage::Reporting => if !self.auto_retry_used {
                self.auto_retry_used = true;
                self.begin_attempt()
            } else {
                self.stage = LoginStage::Asking;
                LoginAction::AskOperator { character: self.index }
            },
            LoginStage::Asking => if e == LoginEvent::Retry {
                self.begin_attempt()
            } else {
                self.skipped = self.skipped + 1;
                self.next_character()
            },
            LoginStage::Staggering => self.begin_attempt(),
            LoginStage::Done => LoginAction::Finished,
            LoginStage::StopUnblocking => {
                self.stage = LoginStage::StopCleaning;
                self.input_blocked = false;
                LoginAction::CleanupStale
            },
            LoginStage::StopCleaning => {
                if ok {
                    self.redirect_added = false;
                }
                self.stop_tail()
            },
            LoginStage::StopShutting => {
                self.stage = LoginStage::Stopped;
                self.proxy_open = false;
                LoginAction::Exit
            },
            LoginStage::Stopped => LoginAction::Exit,
        }
    }
}

/// The login phase as the caller holds it: its state always satisfies the
/// invariant, since only `new` and `step` make or change it.
pub struct LoginSession {
    state: LoginState,
}

impl LoginSession {
    #[verifier::type_invariant]
    spec fn inv(&self) -> bool {
        self.state.wf()
    }
}

impl View for LoginSession {
    type V = LoginState;

    closed spec fn view(&self) -> LoginState {
        self.state
    }
}

impl LoginSession {
    /// A session over `count` launched characters, with the region's listener
    /// `port` and `stagger_seconds` between two logins, and its first action.
    pub fn new(count: usize, port: u16, stagger_seconds: u64) -> (r: (LoginSession, LoginAction))
        ensures
            (r.0@, r.1) == begin_or_finish(count, port, stagger_seconds),
    {
        let (state, first) = LoginState::initial(count, port, stagger_seconds);
        (LoginSession { state }, first)
    }

    /// Takes the answer to the last action and returns the next action; the new
    /// state and the action are exactly those of `login_next`.
    pub fn step(&mut self, e: LoginEvent) -> (r: LoginAction)
        ensures
            (final(self)@, r) == login_next(old(self)@, e),
    {
        proof {
            use_type_invariant(&*self);
        }
        let mut state = self.state;
        let action = state.advance(e);
        self.state = state;
        action
    }

    /// The session's current state.
    pub fn state(&self) -> (r: LoginState)
        ensures
            r == self@,
            r.wf(),
    {
        proof {
            use_type_invariant(self);
        }
        self.state
    }
}

/// The state a new session starts in and its first action.
pub open spec fn begin_or_finish(count: usize, port: u16, stagger_seconds: u64) -> (
    LoginState,
    LoginAction,
) {
    let s = LoginState {
        count,
        index: 0,
        port,
        stagger_seconds,
        stage: LoginStage::StartingProxy,
        proxy_open: false,
        redirect_added: false,
        input_blocked: false,
        auto_retry_used: false,
        failed_step: LoginStep::StartProxy,
        failed_error: ErrorKind::Proxy,
        succeeded: 0,
        skipped: 0,
    };
    if count == 0 {
        (LoginState { stage: LoginStage::Done, ..s }, LoginAction::Finished)
    } else {
        (s, LoginAction::StartProxy { port })
    }
}

/// Every transition keeps the session's invariant.
pub proof fn lemma_next_wf(s: LoginState, e: LoginEvent)
    requires
        s.wf(),
    ensures
        login_next(s, e).0.wf(),
{
}


/// The state after answering the actions with `evs`, in order.
pub open spec fn run_states(s: LoginState, evs: Seq<LoginEvent>) -> LoginState
    decreases evs.len(),
{
    if evs.len() == 0 {
        s
    } else {
        login_next(run_states(s, evs.drop_last()), evs.last()).0
    }
}

/// The listener is started only when nothing is held, and the redirect entry is
/// added only while this attempt's listener is up and no earlier entry is left.
pub open spec fn claims_when_free(s: LoginState, a: LoginAction) -> bool {
    &&& a is StartProxy ==> !s.proxy_open && !s.redirect_added && !s.input_blocked
    &&& a is AddRedirect ==> s.proxy_open && !s.redirect_added
}

proof fn lemma_run_wf(s: LoginState, evs: Seq<LoginEvent>)
    requires
        s.wf(),
    ensures
        run_states(s, evs).wf(),
    decreases evs.len(),
{
    if evs.len() > 0 {
        lemma_run_wf(s, evs.drop_last());
        lemma_next_wf(run_states(s, evs.drop_last()), evs.last());
    }
}

/// However the actions are answered, over any number of attempts and
/// characters, an attempt takes the listener port only when no other holds it or
/// the redirect entry or the input block, and adds the redirect entry only when
/// none is outstanding: at most one attempt is ever in flight.
pub proof fn lemma_one_attempt_in_flight(s: LoginState, evs: Seq<LoginEvent>)
    requires
        s.wf(),
    ensures
        forall|k: int|
            0 <= k < evs.len() ==> {
                let r = #[trigger] login_next(run_states(s, evs.take(k)), evs[k]);
                claims_when_free(r.0, r.1) && r.0.wf()
            },
{
    assert forall|k: int| 0 <= k < evs.len() implies {
        let r = #[trigger] login_next(run_states(s, evs.take(k)), evs[k]);
        claims_when_free(r.0, r.1) && r.0.wf()
    } by {
        lemma_run_wf(s, evs.take(k));
        lemma_next_wf(run_states(s, evs.take(k)), evs[k]);
    }
}

/// Once input is blocked the script runs, and whatever the script's outcome the
/// next action gives input back (an interruption gives it back at once).
pub proof fn lemma_block_then_unblock(s: LoginState, e1: LoginEvent, e2: LoginEvent, e3: LoginEvent)
    requires
        s.wf(),
        login_next(s, e1).1 == LoginAction::BlockInput,
    ensures
        ({
            let s1 = login_next(s, e1).0;
            let r2 = login_next(s1, e2);
            &&& r2.1 is RunScript || r2.1 == LoginAction::UnblockInput
            &&& r2.1 is RunScript ==> login_next(r2.0, e3).1 == LoginAction::UnblockInput
        }),
{
}

/// An interruption at any point of the run first gives input back, then clears
/// the tagged redirect entries, then shuts the listener if it is open, then
/// leaves; when the clearing succeeds, nothing is held when the process leaves.
pub proof fn lemma_interrupt_cleanup(s: LoginState, e1: LoginEvent, e2: LoginEvent, e3: LoginEvent)
    requires
        s.wf(),
        s.stage != LoginStage::StopUnblocking,
        s.stage != LoginStage::StopCleaning,
        s.stage != LoginStage::StopShutting,
        s.stage != LoginStage::Stopped,
    ensures
        ({
            let r1 = login_next(s, LoginEvent::Interrupted);
            let r2 = login_next(r1.0, e1);
            let r3 = login_next(r2.0, e2);
            let r4 = login_next(r3.0, e3);
            &&& r1.1 == LoginAction::UnblockInput
            &&& r2.1 == LoginAction::CleanupStale
            &&& !r2.0.input_blocked
            &&& r3.1 == LoginAction::Exit || r3.1 == LoginAction::ShutdownProxy
            &&& r3.1 == LoginAction::ShutdownProxy ==> r4.1 == LoginAction::Exit
            &&& e2 == LoginEvent::Succeeded ==> !r3.0.redirect_added
            &&& r3.1 == LoginAction::Exit ==> !r3.0.input_blocked && !r3.0.proxy_open
            &&& r3.1 == LoginAction::ShutdownProxy ==> !r4.0.input_blocked && !r4.0.proxy_open
                && r4.0.redirect_added == r3.0.redirect_added
        }),
{
}


/// The name a failed login step is logged under.
pub fn step_name(step: LoginStep) -> (r: &'static str)
    ensures
        step == LoginStep::ReleaseStale ==> r@ == "remove stale redirect"@,
        step == LoginStep::StartProxy ==> r@ == "start proxy"@,
        step == LoginStep::AddRedirect ==> r@ == "add redirect"@,
        step == LoginStep::RunScript ==> r@ == "input script"@,
        step == LoginStep::AwaitProxy ==> r@ == "await proxy"@,
        step == LoginStep::RemoveRedirect ==> r@ == "remove redirect"@,
{
    match step {
        LoginStep::ReleaseStale => "remove stale redirect",
        LoginStep::StartProxy => "start proxy",
        LoginStep::AddRedirect => "add redirect",
        LoginStep::RunScript => "input script",
        LoginStep::AwaitProxy => "await proxy",
        LoginStep::RemoveRedirect => "remove redirect",
    }
}

} // verus!

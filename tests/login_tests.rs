use login_rs::errors::ErrorKind;
use login_rs::login::{LoginAction, LoginEvent, LoginSession, LoginStage, LoginStep};

/// The real resources as a pretend machine would see them, with checks that
/// no two attempts ever overlap on them.
#[derive(Default)]
struct World {
    port_held: bool,
    redirect_entries: u32,
    input_blocked: bool,
    max_entries: u32,
    script_runs: Vec<usize>,
    asked: Vec<usize>,
    reports: Vec<(usize, LoginStep, ErrorKind)>,
    exited: bool,
}

/// Drives a session; `outcome(action, n)` answers the n-th action. The world
/// is updated as the real effects would be, and the overlap rules are checked
/// on every action.
fn drive(
    count: usize,
    mut outcome: impl FnMut(&LoginAction, usize) -> LoginEvent,
) -> (LoginSession, World, Vec<LoginAction>) {
    let (mut s, mut a) = LoginSession::new(count, 51304, 10);
    let mut w = World::default();
    let mut log = vec![a];
    let mut n = 0;
    loop {
        n += 1;
        assert!(n < 10_000);
        if a == LoginAction::Finished || a == LoginAction::Exit {
            if a == LoginAction::Exit {
                w.exited = true;
            }
            break;
        }
        let e = outcome(&a, n);
        let ok = e == LoginEvent::Succeeded;
        match a {
            LoginAction::StartProxy { .. } => {
                assert!(!w.port_held, "port bound twice");
                assert_eq!(w.redirect_entries, 0, "listener started while a redirect is left");
                if ok {
                    w.port_held = true;
                }
            }
            LoginAction::AddRedirect => {
                assert!(w.port_held);
                assert_eq!(w.redirect_entries, 0, "second redirect added");
                if ok {
                    w.redirect_entries += 1;
                }
                w.max_entries = w.max_entries.max(w.redirect_entries);
            }
            LoginAction::BlockInput => w.input_blocked = true,
            LoginAction::UnblockInput => w.input_blocked = false,
            LoginAction::RunScript { character } => {
                assert!(w.input_blocked);
                w.script_runs.push(character);
            }
            LoginAction::AwaitProxy => {
                if ok {
                    w.port_held = false;
                }
            }
            LoginAction::ShutdownProxy => w.port_held = false,
            LoginAction::RemoveRedirect | LoginAction::CleanupStale => {
                if ok {
                    w.redirect_entries = 0;
                }
            }
            LoginAction::Report { character, step, error } => w.reports.push((character, step, error)),
            LoginAction::AskOperator { character } => w.asked.push(character),
            LoginAction::Stagger { seconds } => {
                assert_eq!(seconds, 10);
                assert!(!w.port_held && w.redirect_entries == 0 && !w.input_blocked);
            }
            LoginAction::Finished | LoginAction::Exit => {}
        }
        a = s.step(e);
        log.push(a);
    }
    (s, w, log)
}

#[test]
fn all_succeed_one_after_another() {
    let (s, w, log) = drive(3, |_, _| LoginEvent::Succeeded);
    assert_eq!(s.state().succeeded, 3);
    assert_eq!(s.state().stage, LoginStage::Done);
    assert_eq!(w.script_runs, vec![0, 1, 2]);
    assert!(!w.port_held && w.redirect_entries == 0 && !w.input_blocked);
    assert_eq!(w.max_entries, 1);
    let staggers = log.iter().filter(|a| matches!(a, LoginAction::Stagger { .. })).count();
    assert_eq!(staggers, 2);
    let first: Vec<LoginAction> = log[..8].to_vec();
    assert_eq!(
        first,
        vec![
            LoginAction::StartProxy { port: 51304 },
            LoginAction::AddRedirect,
            LoginAction::BlockInput,
            LoginAction::RunScript { character: 0 },
            LoginAction::UnblockInput,
            LoginAction::AwaitProxy,
            LoginAction::RemoveRedirect,
            LoginAction::Stagger { seconds: 10 },
        ]
    );
}

#[test]
fn many_attempts_with_failures_never_overlap() {
    // A fixed pseudo-random pattern of failures over many characters; the
    // world checks inside `drive` would panic on any overlap.
    let mut seed: u32 = 12345;
    let (s, w, _) = drive(12, |a, _| {
        seed = seed.wrapping_mul(1103515245).wrapping_add(12345);
        let roll = (seed >> 16) % 10;
        match a {
            LoginAction::AskOperator { .. } => {
                if roll < 5 {
                    LoginEvent::Retry
                } else {
                    LoginEvent::Skip
                }
            }
            _ => {
                if roll < 2 {
                    LoginEvent::Failed
                } else {
                    LoginEvent::Succeeded
                }
            }
        }
    });
    assert_eq!(s.state().stage, LoginStage::Done);
    assert_eq!(s.state().succeeded + s.state().skipped, 12);
    assert!(w.max_entries <= 1);
    assert!(!w.input_blocked && !w.port_held);
}

#[test]
fn add_failure_shuts_listener_and_retries_once_then_asks() {
    let (s, w, log) = drive(1, |a, _| match a {
        LoginAction::AddRedirect => LoginEvent::Failed,
        LoginAction::AskOperator { .. } => LoginEvent::Skip,
        _ => LoginEvent::Succeeded,
    });
    assert_eq!(s.state().skipped, 1);
    assert_eq!(s.state().succeeded, 0);
    assert_eq!(w.asked, vec![0]);
    assert_eq!(
        w.reports,
        vec![(0, LoginStep::AddRedirect, ErrorKind::Redirect), (0, LoginStep::AddRedirect, ErrorKind::Redirect)]
    );
    assert_eq!(
        log[..5].to_vec(),
        vec![
            LoginAction::StartProxy { port: 51304 },
            LoginAction::AddRedirect,
            LoginAction::RemoveRedirect,
            LoginAction::ShutdownProxy,
            LoginAction::Report { character: 0, step: LoginStep::AddRedirect, error: ErrorKind::Redirect },
        ]
    );
    assert!(!w.port_held);
}

#[test]
fn script_failure_unblocks_before_other_cleanup() {
    let mut failed_once = false;
    let (s, w, log) = drive(1, |a, _| match a {
        LoginAction::RunScript { .. } if !failed_once => {
            failed_once = true;
            LoginEvent::Failed
        }
        _ => LoginEvent::Succeeded,
    });
    assert_eq!(s.state().succeeded, 1);
    assert_eq!(
        log[3..8].to_vec(),
        vec![
            LoginAction::RunScript { character: 0 },
            LoginAction::UnblockInput,
            LoginAction::RemoveRedirect,
            LoginAction::ShutdownProxy,
            LoginAction::Report { character: 0, step: LoginStep::RunScript, error: ErrorKind::Input },
        ]
    );
    assert_eq!(w.script_runs, vec![0, 0]);
}

#[test]
fn operator_retry_runs_the_attempt_again() {
    let mut fails = 0;
    let (s, w, _) = drive(2, |a, _| match a {
        LoginAction::StartProxy { .. } if fails < 3 => {
            fails += 1;
            LoginEvent::Failed
        }
        LoginAction::AskOperator { .. } => LoginEvent::Retry,
        _ => LoginEvent::Succeeded,
    });
    assert_eq!(s.state().succeeded, 2);
    assert_eq!(w.asked, vec![0, 0]);
}

#[test]
fn failed_removal_is_retried_before_next_listener() {
    let mut removals = 0;
    let (s, w, log) = drive(2, |a, _| match a {
        LoginAction::RemoveRedirect => {
            removals += 1;
            if removals == 1 {
                LoginEvent::Failed
            } else {
                LoginEvent::Succeeded
            }
        }
        LoginAction::AskOperator { .. } => LoginEvent::Skip,
        _ => LoginEvent::Succeeded,
    });
    assert_eq!(s.state().succeeded, 2);
    assert_eq!(w.max_entries, 1);
    assert_eq!(log[7], LoginAction::Report { character: 0, step: LoginStep::RemoveRedirect, error: ErrorKind::Redirect });
    assert_eq!(log[8], LoginAction::RemoveRedirect);
    assert_eq!(log[9], LoginAction::StartProxy { port: 51304 });
}

#[test]
fn interrupt_mid_script_unblocks_and_clears() {
    let (s, w, log) = drive(3, |a, _| match a {
        LoginAction::RunScript { character: 1 } => LoginEvent::Interrupted,
        _ => LoginEvent::Succeeded,
    });
    assert!(w.exited);
    assert!(!w.input_blocked);
    assert_eq!(w.redirect_entries, 0);
    assert!(!w.port_held);
    assert_eq!(s.state().stage, LoginStage::Stopped);
    let at = log.iter().position(|a| *a == LoginAction::RunScript { character: 1 }).unwrap();
    assert_eq!(
        log[at + 1..].to_vec(),
        vec![
            LoginAction::UnblockInput,
            LoginAction::CleanupStale,
            LoginAction::ShutdownProxy,
            LoginAction::Exit,
        ]
    );
}

#[test]
fn interrupt_with_nothing_held_still_unblocks_and_cleans() {
    let (mut s, _) = LoginSession::new(0, 51300, 10);
    assert_eq!(s.step(LoginEvent::Interrupted), LoginAction::UnblockInput);
    assert_eq!(s.step(LoginEvent::Succeeded), LoginAction::CleanupStale);
    assert_eq!(s.step(LoginEvent::Failed), LoginAction::Exit);
    assert_eq!(s.step(LoginEvent::Succeeded), LoginAction::Exit);
}

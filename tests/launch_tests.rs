use login_rs::errors::ErrorKind;
use login_rs::launch::{LaunchAction, LaunchEvent, LaunchSequence, MAX_POLLS, POLL_INTERVAL_MS};
use login_rs::login::{LoginAction, LoginSession};
use login_rs::windows::WindowHandle;
use login_rs::{Character, Region};

/// A pretend desktop: `appear_after(character, attempt)` says after how many
/// polls the launched client's window shows up, if ever; `launch_ok` says
/// whether starting the process works.
struct Desktop<A: Fn(usize, u32) -> Option<u32>, L: Fn(usize, u32) -> bool> {
    windows: Vec<WindowHandle>,
    appear_after: A,
    launch_ok: L,
}

fn run_phase1<A: Fn(usize, u32) -> Option<u32>, L: Fn(usize, u32) -> bool>(
    count: usize,
    mut desk: Desktop<A, L>,
) -> (LaunchSequence, Vec<LaunchAction>) {
    let (mut seq, mut action) = LaunchSequence::new(count, 2);
    let mut actions = vec![action];
    let mut tries = vec![0u32; count];
    let mut pending: Option<(usize, u32, u32)> = None;
    let mut guard = 0;
    loop {
        guard += 1;
        assert!(guard < 100_000);
        let event = match action {
            LaunchAction::Finished => break,
            LaunchAction::Snapshot => LaunchEvent::Windows(desk.windows.clone()),
            LaunchAction::Launch { character } => {
                let attempt = tries[character];
                tries[character] += 1;
                if (desk.launch_ok)(character, attempt) {
                    pending = (desk.appear_after)(character, attempt).map(|n| (character, attempt, n));
                    LaunchEvent::Launched
                } else {
                    LaunchEvent::LaunchFailed
                }
            }
            LaunchAction::PollAfter { ms } => {
                assert_eq!(ms, POLL_INTERVAL_MS);
                if let Some((c, a, n)) = pending {
                    if n <= 1 {
                        desk.windows.push(WindowHandle { raw: 1000 + (c as isize) * 10 + a as isize });
                        pending = None;
                    } else {
                        pending = Some((c, a, n - 1));
                    }
                }
                LaunchEvent::Windows(desk.windows.clone())
            }
            _ => LaunchEvent::Completed,
        };
        action = seq.step(event);
        actions.push(action);
    }
    (seq, actions)
}

fn characters() -> Vec<Character> {
    vec![
        Character { name: "Alice".to_string(), slot: 1, password: "a".to_string() },
        Character { name: "Bob".to_string(), slot: 5, password: "b".to_string() },
        Character { name: "Carol".to_string(), slot: 12, password: "c".to_string() },
    ]
}

#[test]
fn three_characters_all_found_in_order() {
    let chars = characters();
    let desk = Desktop {
        windows: vec![WindowHandle { raw: 7 }],
        appear_after: |c: usize, _a: u32| Some(1 + c as u32),
        launch_ok: |_c: usize, _a: u32| true,
    };
    let (seq, actions) = run_phase1(chars.len(), desk);
    assert!(seq.is_done());
    let launched = seq.launched();
    assert_eq!(launched.len(), 3);
    let order: Vec<usize> = launched.iter().map(|l| l.character).collect();
    assert_eq!(order, vec![0, 1, 2]);
    assert_eq!(launched[1].hwnd, WindowHandle { raw: 1010 });
    assert!(seq.failed().is_empty());
    assert!(!actions.iter().any(|a| matches!(a, LaunchAction::Report { .. })));
    let staggers = actions.iter().filter(|a| matches!(a, LaunchAction::Stagger { seconds: 2 })).count();
    assert_eq!(staggers, 2);
    let renames: Vec<usize> = actions
        .iter()
        .filter_map(|a| match a {
            LaunchAction::Rename { character, .. } => Some(*character),
            _ => None,
        })
        .collect();
    assert_eq!(renames, vec![0, 1, 2]);
    let (session, first) = LoginSession::new(launched.len(), Region::Us.proxy_port(), 10);
    assert_eq!(session.state().count, 3);
    assert_eq!(first, LoginAction::StartProxy { port: 51304 });
}

#[test]
fn discovery_timeout_skips_character_and_batch_continues() {
    let desk = Desktop {
        windows: vec![],
        appear_after: |c: usize, _a: u32| if c == 1 { None } else { Some(3) },
        launch_ok: |_c: usize, _a: u32| true,
    };
    let (seq, actions) = run_phase1(3, desk);
    assert!(seq.is_done());
    let order: Vec<usize> = seq.launched().iter().map(|l| l.character).collect();
    assert_eq!(order, vec![0, 2]);
    assert_eq!(seq.failed().clone(), vec![1]);
    let reports: Vec<(usize, u8, ErrorKind)> = actions
        .iter()
        .filter_map(|a| match a {
            LaunchAction::Report { character, attempt, error } => Some((*character, *attempt, *error)),
            _ => None,
        })
        .collect();
    assert_eq!(
        reports,
        vec![(1, 0, ErrorKind::DiscoveryTimeout), (1, 1, ErrorKind::DiscoveryTimeout)]
    );
    let polls = actions.iter().filter(|a| matches!(a, LaunchAction::PollAfter { .. })).count();
    assert_eq!(polls, 3 + 2 * MAX_POLLS as usize + 3);
}

#[test]
fn failed_launch_is_retried_once() {
    let desk = Desktop {
        windows: vec![],
        appear_after: |_c: usize, _a: u32| Some(1),
        launch_ok: |_c: usize, a: u32| a > 0,
    };
    let (seq, actions) = run_phase1(1, desk);
    assert_eq!(seq.launched().len(), 1);
    assert_eq!(seq.launched()[0].hwnd, WindowHandle { raw: 1001 });
    assert!(actions.contains(&LaunchAction::Report { character: 0, attempt: 0, error: ErrorKind::Launch }));
    assert!(seq.failed().is_empty());
}

#[test]
fn window_of_earlier_character_is_not_claimed_twice() {
    // The second launch's snapshot is taken before its window appears; the
    // first character's window is already claimed and must not be reused.
    let desk = Desktop {
        windows: vec![],
        appear_after: |c: usize, _a: u32| if c == 0 { Some(1) } else { None },
        launch_ok: |_c: usize, _a: u32| true,
    };
    let (seq, _) = run_phase1(2, desk);
    assert_eq!(seq.launched().len(), 1);
    assert_eq!(seq.failed().clone(), vec![1]);
}

#[test]
fn no_characters_finishes_at_once() {
    let (seq, first) = LaunchSequence::new(0, 2);
    assert_eq!(first, LaunchAction::Finished);
    assert!(seq.is_done());
}

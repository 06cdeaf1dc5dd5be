use login_rs::windows::{client_title_prefix, diff_new, window_title, WindowHandle};

fn h(raw: isize) -> WindowHandle {
    WindowHandle { raw }
}

#[test]
fn diff_new_takes_first_unseen_unclaimed() {
    let after = [h(1), h(2), h(3), h(4)];
    assert_eq!(diff_new(&after, &[h(1)], &[h(2)]), Some(h(3)));
    assert_eq!(diff_new(&after, &[], &[]), Some(h(1)));
}

#[test]
fn diff_new_none_when_nothing_new() {
    assert_eq!(diff_new(&[h(1), h(2)], &[h(2)], &[h(1)]), None);
    assert_eq!(diff_new(&[], &[], &[]), None);
}

#[test]
fn window_titles() {
    assert_eq!(client_title_prefix(), "PlayOnline Viewer");
    assert_eq!(window_title("Bob"), "PlayOnline Viewer - Bob");
}

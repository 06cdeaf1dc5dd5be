use login_rs::hosts::{add_entry, entry_line, find_bytes, marker, remove_entries};
use login_rs::Region;

fn add(table: &[u8], entry: &str) -> Vec<u8> {
    let mut t = table.to_vec();
    t.extend_from_slice(&add_entry(table, entry));
    t
}

#[test]
fn entry_line_is_tagged() {
    assert_eq!(marker(), "# ffxi-login-rs");
    assert_eq!(
        entry_line(Region::Us.hosts_entry()),
        b"127.0.0.1 wh000.pol.com # ffxi-login-rs\n".to_vec()
    );
}

#[test]
fn remove_drops_only_tagged_lines() {
    let table = b"127.0.0.1 localhost\n1.2.3.4 a # ffxi-login-rs\n# comment\n5.6.7.8 b # ffxi-login-rs\n::1 localhost\n";
    assert_eq!(remove_entries(table), b"127.0.0.1 localhost\n# comment\n::1 localhost\n".to_vec());
}

#[test]
fn remove_on_empty_table_writes_a_newline() {
    assert_eq!(remove_entries(b""), b"\n".to_vec());
    assert_eq!(remove_entries(b"x # ffxi-login-rs\n"), b"\n".to_vec());
}

#[test]
fn remove_keeps_carriage_returns_in_their_lines() {
    assert_eq!(remove_entries(b"a\r\nb # ffxi-login-rs\r\nc"), b"a\r\nc\n".to_vec());
    assert_eq!(remove_entries(b"a\r"), b"a\r\n".to_vec());
    assert_eq!(remove_entries(b"a\r\r\n"), b"a\r\r\n".to_vec());
}

#[test]
fn add_puts_entry_on_its_own_line() {
    assert_eq!(add_entry(b"", "e"), b"e # ffxi-login-rs\n".to_vec());
    assert_eq!(add_entry(b"x\n", "e"), b"e # ffxi-login-rs\n".to_vec());
    assert_eq!(add_entry(b"x", "e"), b"\ne # ffxi-login-rs\n".to_vec());
    let table = b"127.0.0.1 localhost";
    let added = add(table, "127.0.0.1 wh000.pol.com");
    assert_eq!(added, b"127.0.0.1 localhost\n127.0.0.1 wh000.pol.com # ffxi-login-rs\n".to_vec());
    assert_eq!(remove_entries(&added), b"127.0.0.1 localhost\n".to_vec());
}

#[test]
fn add_then_remove_restores_crlf_table() {
    let table = b"a\r\r\n127.0.0.1 localhost\r\n";
    let added = add(table, "127.0.0.1 wh000.pol.com");
    assert_eq!(remove_entries(&added), table.to_vec());
}

#[test]
fn remove_is_idempotent() {
    let tables: Vec<&[u8]> = vec![
        b"",
        b"\n",
        b"127.0.0.1 localhost\n",
        b"a\nb # ffxi-login-rs\nc",
        b"a\r\nb\r\n\r\n",
        b"a\r\r\n",
        b"a\r",
        b"x # ffxi-login-rs\n",
    ];
    for t in tables {
        let once = remove_entries(t);
        let twice = remove_entries(&once);
        assert_eq!(once, twice);
    }
}

#[test]
fn add_then_remove_restores_table() {
    let table = b"127.0.0.1 localhost\n# keep me\n10.0.0.1 other.host\n";
    let added = add(table, Region::Us.hosts_entry());
    assert_ne!(added, table.to_vec());
    assert_eq!(remove_entries(&added), table.to_vec());
}

#[test]
fn add_then_remove_equals_remove_alone() {
    let table = b"a\r\nstale # ffxi-login-rs\n";
    let added = add(table, "127.0.0.1 wh000.pol.com");
    assert_eq!(remove_entries(&added), remove_entries(table));
}

#[test]
fn find_bytes_cases() {
    assert!(find_bytes(b"hello world", b"lo w"));
    assert!(find_bytes(b"abc", b""));
    assert!(!find_bytes(b"abc", b"abcd"));
    assert!(!find_bytes(b"abcabd", b"abe"));
    assert!(find_bytes(b"abcabd", b"abd"));
}

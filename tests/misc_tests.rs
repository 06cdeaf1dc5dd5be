use login_rs::errors::ErrorKind;
use login_rs::keys::{replay_keys, typing_inputs, vk_name, KeyDirection, KeyInput, RecordedKey};
use login_rs::launch::{command_line, launch_step_name, profile_argument};
use login_rs::logging::{log_dir_name, FileLogger};
use login_rs::login::{step_name, LoginStep};
use login_rs::login_bin::{navigation_steps, parse_login_bin, NavDirection};
use login_rs::proxy::{redirect_body, redirect_response};

#[test]
fn key_names() {
    assert_eq!(vk_name(0x0D), "ENTER");
    assert_eq!(vk_name(0x08), "BACKSPACE");
    assert_eq!(vk_name(0x28), "DOWN");
    assert_eq!(vk_name(0x30), "0");
    assert_eq!(vk_name(0x37), "7");
    assert_eq!(vk_name(0x41), "A");
    assert_eq!(vk_name(0x5A), "Z");
    assert_eq!(vk_name(0x63), "NUMPAD_3");
    assert_eq!(vk_name(0x6B), "ADD");
    assert_eq!(vk_name(0x70), "F1");
    assert_eq!(vk_name(0x7B), "F12");
    assert_eq!(vk_name(0xA5), "RALT");
    assert_eq!(vk_name(0x07), "VK_0x07");
    assert_eq!(vk_name(0xFF), "VK_0xFF");
    assert_eq!(vk_name(0x1234), "VK_0x1234");
}

#[test]
fn replay_puts_pause_before_key() {
    let keys = [
        RecordedKey { vk_code: 0x41, direction: KeyDirection::Down, delay_ms: 0 },
        RecordedKey { vk_code: 0x41, direction: KeyDirection::Up, delay_ms: 120 },
    ];
    assert_eq!(
        replay_keys(&keys),
        vec![
            KeyInput::Send { vk_code: 0x41, direction: KeyDirection::Down },
            KeyInput::Wait { ms: 120 },
            KeyInput::Send { vk_code: 0x41, direction: KeyDirection::Up },
        ]
    );
    assert!(replay_keys(&[]).is_empty());
}

#[test]
fn redirect_response_is_exact() {
    let body = redirect_body();
    let expected = format!(
        "HTTP/1.1 200 OK\r\nContent-Type: text/x-playonline-pml;charset=UTF-8\r\nContent-Length: {}\r\nConnection: close\r\n\r\n{}",
        body.len(),
        body
    );
    assert_eq!(redirect_response(), expected);
    assert!(redirect_response().contains("Content-Length: 190\r\n"));
    assert!(body.contains("href=\"gameto:1\""));
}

#[test]
fn login_bin_parsing() {
    let mut data = vec![0u8; 0x70];
    data[0x64] = 7;
    data[0x6F] = 1;
    let info = parse_login_bin(&data).unwrap();
    assert_eq!(info.current_slot, 7);
    assert!(info.auto_login_enabled);
    data[0x6F] = 0;
    assert!(!parse_login_bin(&data).unwrap().auto_login_enabled);
    assert!(parse_login_bin(&data[..0x6F]).is_none());
}

#[test]
fn navigation_between_slots() {
    assert_eq!(navigation_steps(2, 5), vec![NavDirection::Down; 3]);
    assert_eq!(navigation_steps(5, 1), vec![NavDirection::Up; 4]);
    assert!(navigation_steps(4, 4).is_empty());
}

#[test]
fn log_text() {
    assert_eq!(log_dir_name(), "login-rs");
    assert_eq!(FileLogger::log_file_name("Bob"), "Bob.log");
    assert_eq!(
        FileLogger::error_entry("1700000000", "launch", "boom"),
        "[1700000000] Step: launch | Error: boom\n"
    );
    let logger = FileLogger::with_dir("/tmp/login-rs".to_string());
    assert_eq!(logger.log_dir(), "/tmp/login-rs");
}

#[test]
fn launch_text() {
    assert_eq!(profile_argument("main"), "-p=\"main\"");
    assert_eq!(command_line(r"C:\W\W.exe", None), "\"C:\\W\\W.exe\"");
    assert_eq!(command_line(r"C:\W\W.exe", Some("-p=\"x\"")), "\"C:\\W\\W.exe\" -p=\"x\"");
    assert_eq!(launch_step_name(0), "launch");
    assert_eq!(launch_step_name(1), "launch (retry)");
}

#[test]
fn names_of_steps_and_errors() {
    assert_eq!(step_name(LoginStep::AddRedirect), "add redirect");
    assert_eq!(step_name(LoginStep::AwaitProxy), "await proxy");
    assert_eq!(ErrorKind::DiscoveryTimeout.describe(), "no client window appeared in time");
}

#[test]
fn typing_holds_shift_only_when_asked() {
    // 'a' scans to 0x0041; 'A' scans to 0x0141 (shift bit set).
    assert_eq!(
        typing_inputs(&[0x0041, 0x0141]),
        vec![
            KeyInput::Send { vk_code: 0x41, direction: KeyDirection::Down },
            KeyInput::Send { vk_code: 0x41, direction: KeyDirection::Up },
            KeyInput::Wait { ms: 50 },
            KeyInput::Send { vk_code: 0x10, direction: KeyDirection::Down },
            KeyInput::Send { vk_code: 0x41, direction: KeyDirection::Down },
            KeyInput::Send { vk_code: 0x41, direction: KeyDirection::Up },
            KeyInput::Send { vk_code: 0x10, direction: KeyDirection::Up },
            KeyInput::Wait { ms: 50 },
        ]
    );
    assert!(typing_inputs(&[]).is_empty());
}

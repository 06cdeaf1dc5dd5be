use login_rs::config::{
    default_launch_delay, default_playonline_dir, default_region, default_stagger_delay,
    default_windower_path,
};
use login_rs::{Character, Config, ConfigError, Region};

fn character(name: &str, slot: u8) -> Character {
    Character { name: name.to_string(), slot, password: "pw".to_string() }
}

fn config_with(characters: Vec<Character>, stagger: u64) -> Config {
    Config {
        windower_path: default_windower_path(),
        playonline_dir: default_playonline_dir(),
        windower_profile: None,
        stagger_delay_seconds: stagger,
        launch_delay_seconds: default_launch_delay(),
        region: default_region(),
        characters,
    }
}

#[test]
fn proxy_port_per_region() {
    assert_eq!(Region::Us.proxy_port(), 51304);
    assert_eq!(Region::Jp.proxy_port(), 51300);
    assert_eq!(Region::Eu.proxy_port(), 51302);
}

#[test]
fn hosts_entry_is_shared() {
    assert_eq!(Region::Us.hosts_entry(), "127.0.0.1 wh000.pol.com");
    assert_eq!(Region::Jp.hosts_entry(), "127.0.0.1 wh000.pol.com");
    assert_eq!(Region::Eu.hosts_entry(), "127.0.0.1 wh000.pol.com");
}

#[test]
fn defaults() {
    assert_eq!(default_windower_path(), r"C:\Windower4\Windower.exe");
    assert_eq!(
        default_playonline_dir(),
        r"C:\Program Files (x86)\PlayOnline\SquareEnix\PlayOnlineViewer\usr\all"
    );
    assert_eq!(default_stagger_delay(), 10);
    assert_eq!(default_launch_delay(), 2);
    assert_eq!(default_region(), Region::Us);
}

#[test]
fn validate_accepts_good_config() {
    let c = config_with(vec![character("Alice", 1), character("Bob", 20)], 10);
    assert!(c.validate().is_ok());
}

#[test]
fn validate_rejects_empty_character_list() {
    let c = config_with(vec![], 10);
    assert!(matches!(c.validate(), Err(ConfigError::NoCharacters)));
}

#[test]
fn validate_names_first_bad_slot() {
    let c = config_with(
        vec![character("Alice", 3), character("Bob", 0), character("Carol", 21)],
        10,
    );
    match c.validate() {
        Err(ConfigError::InvalidSlot { name, slot }) => {
            assert_eq!(name, "Bob");
            assert_eq!(slot, 0);
        }
        other => panic!("unexpected {:?}", other),
    }
    let c = config_with(vec![character("Carol", 21)], 10);
    match c.validate() {
        Err(ConfigError::InvalidSlot { name, slot }) => {
            assert_eq!(name, "Carol");
            assert_eq!(slot, 21);
        }
        other => panic!("unexpected {:?}", other),
    }
}

#[test]
fn error_messages() {
    let c = config_with(vec![character("Bob", 21)], 10);
    assert_eq!(c.validate().unwrap_err().message(), "Character 'Bob' has invalid slot 21 (must be 1-20)");
    let c = config_with(vec![character("Ann", 0)], 10);
    assert_eq!(c.validate().unwrap_err().message(), "Character 'Ann' has invalid slot 0 (must be 1-20)");
    assert_eq!(ConfigError::NoCharacters.message(), "No characters defined in config");
    assert_eq!(ConfigError::ZeroStaggerDelay.message(), "stagger_delay_seconds must be > 0");
}

#[test]
fn validate_rejects_zero_stagger() {
    let c = config_with(vec![character("Alice", 1)], 0);
    assert!(matches!(c.validate(), Err(ConfigError::ZeroStaggerDelay)));
}

#[test]
fn slot_check_comes_before_stagger_check() {
    let c = config_with(vec![character("Alice", 0)], 0);
    assert!(matches!(c.validate(), Err(ConfigError::InvalidSlot { .. })));
}

#[test]
fn filter_without_names_keeps_all_in_order() {
    let c = config_with(vec![character("Alice", 1), character("Bob", 5), character("Carol", 12)], 10);
    let picked = c.filter_characters(&[]);
    let names: Vec<&str> = picked.iter().map(|ch| ch.name.as_str()).collect();
    assert_eq!(names, vec!["Alice", "Bob", "Carol"]);
}

#[test]
fn filter_matches_names_ignoring_case() {
    let c = config_with(vec![character("Alice", 1), character("Bob", 5), character("Carol", 12)], 10);
    let picked = c.filter_characters(&["carol".to_string(), "ALICE".to_string()]);
    let names: Vec<&str> = picked.iter().map(|ch| ch.name.as_str()).collect();
    assert_eq!(names, vec!["Alice", "Carol"]);
    let none = c.filter_characters(&["Dave".to_string(), "Bo".to_string()]);
    assert!(none.is_empty());
}

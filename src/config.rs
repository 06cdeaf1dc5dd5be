use vstd::prelude::*;

use crate::ascii::{eq_ignore_case, str_eq_ignore_case};
use vstd::utf8::encode_utf8;

use crate::text::{decimal_text, push_decimal};

verus! {

/// Lowest and highest character-selection slot that the client offers.
pub const MIN_SLOT: u8 = 1;

pub const MAX_SLOT: u8 = 20;

/// Seconds between two logins when the configuration names none.
pub const DEFAULT_STAGGER_DELAY: u64 = 10;

/// Seconds between two client launches when the configuration names none.
pub const DEFAULT_LAUNCH_DELAY: u64 = 2;

/// Game region; it decides the port on which the redirect listener runs.
#[derive(Clone, Copy, Debug, PartialEq, Eq, Structural)]
pub enum Region {
    Us,
    Jp,
    Eu,
}

pub open spec fn port_of(r: Region) -> u16 {
    match r {
        Region::Us => 51304,
        Region::Jp => 51300,
        Region::Eu => 51302,
    }
}

impl Region {
    /// The fixed port of this region's redirect listener.
    pub fn proxy_port(&self) -> (r: u16)
        ensures
            r == port_of(*self),
    {
        match self {
            Region::Us => 51304,
            Region::Jp => 51300,
            Region::Eu => 51302,
        }
    }

    /// The hosts-table entry that sends the client's login host to this machine;
    /// every region uses the same one.
    pub fn hosts_entry(&self) -> (r: &'static str)
        ensures
            r@ == "127.0.0.1 wh000.pol.com"@,
    {
        "127.0.0.1 wh000.pol.com"
    }
}

/// One account to log in: its name, the client's selection slot and its secret.
#[derive(Clone, Debug)]
pub struct Character {
    pub name: String,
    pub slot: u8,
    pub password: String,
}

pub open spec fn slot_valid(slot: u8) -> bool {
    MIN_SLOT <= slot <= MAX_SLOT
}

/// The loaded configuration.
#[derive(Clone, Debug)]
pub struct Config {
    pub windower_path: String,
    pub playonline_dir: String,
    pub windower_profile: Option<String>,
    pub stagger_delay_seconds: u64,
    pub launch_delay_seconds: u64,
    pub region: Region,
    pub characters: Vec<Character>,
}

/// Why a configuration was rejected.
#[derive(Clone, Debug)]
pub enum ConfigError {
    NoCharacters,
    InvalidSlot { name: String, slot: u8 },
    ZeroStaggerDelay,
}

/// The message that explains a rejected configuration.
pub open spec fn error_text(e: ConfigError) -> Seq<char> {
    match e {
        ConfigError::NoCharacters => "No characters defined in config"@,
        ConfigError::InvalidSlot { name, slot } => "Character '"@ + name@ + "' has invalid slot "@
            + decimal_text(slot as nat) + " (must be 1-20)"@,
        ConfigError::ZeroStaggerDelay => "stagger_delay_seconds must be > 0"@,
    }
}

impl ConfigError {
    /// The message that explains this error, as `error_text` gives it.
    pub fn message(&self) -> (r: String)
        ensures
            r@ == error_text(*self),
    {
        match self {
            ConfigError::NoCharacters => String::from_str("No characters defined in config"),
            ConfigError::InvalidSlot { name, slot } => {
                let mut s = String::from_str("Character '");
                s.append(name.as_str());
                s.append("' has invalid slot ");
                push_decimal(&mut s, *slot as u64);
                s.append(" (must be 1-20)");
                s
            },
            ConfigError::ZeroStaggerDelay => String::from_str("stagger_delay_seconds must be > 0"),
        }
    }
}

/// Every character's slot lies in the range the client offers.
pub open spec fn all_slots_valid(cs: Seq<Character>) -> bool {
    forall|i: int| 0 <= i < cs.len() ==> slot_valid(#[trigger] cs[i].slot)
}

/// `i` is the first character whose slot lies outside the valid range.
pub open spec fn first_invalid_at(cs: Seq<Character>, i: int) -> bool {
    &&& 0 <= i < cs.len()
    &&& !slot_valid(cs[i].slot)
    &&& all_slots_valid(cs.take(i))
}

/// A character is selected by `names` when `names` is empty or one of them equals
/// its name, ignoring ASCII case.
pub open spec fn selected(names: Seq<String>, c: Character) -> bool {
    names.len() == 0 || exists|k: int|
        0 <= k < names.len() && eq_ignore_case(
            encode_utf8(#[trigger] names[k]@),
            encode_utf8(c.name@),
        )
}

pub fn default_windower_path() -> (r: String)
    ensures
        r@ == "C:\\Windower4\\Windower.exe"@,
{
    String::from_str("C:\\Windower4\\Windower.exe")
}

pub fn default_playonline_dir() -> (r: String)
    ensures
        r@ == "C:\\Program Files (x86)\\PlayOnline\\SquareEnix\\PlayOnlineViewer\\usr\\all"@,
{
    String::from_str("C:\\Program Files (x86)\\PlayOnline\\SquareEnix\\PlayOnlineViewer\\usr\\all")
}

pub fn default_stagger_delay() -> (r: u64)
    ensures
        r == DEFAULT_STAGGER_DELAY,
{
    DEFAULT_STAGGER_DELAY
}

pub fn default_launch_delay() -> (r: u64)
    ensures
        r == DEFAULT_LAUNCH_DELAY,
{
    DEFAULT_LAUNCH_DELAY
}

pub fn default_region() -> (r: Region)
    ensures
        r == Region::Us,
{
    Region::Us
}

impl Config {
    /// Checks the loaded values: at least one character, every slot within
    /// `MIN_SLOT..=MAX_SLOT` (the first offender is named), and a nonzero delay
    /// between logins.
    pub fn validate(&self) -> (r: Result<(), ConfigError>)
        ensures
            self.characters@.len() == 0 ==> r matches Err(ConfigError::NoCharacters),
            self.characters@.len() > 0 && !all_slots_valid(self.characters@) ==> (r matches Err(
                ConfigError::InvalidSlot { name, slot },
            ) && exists|i: int|
                first_invalid_at(self.characters@, i) && name@ == self.characters@[i].name@
                    && slot == self.characters@[i].slot),
            self.characters@.len() > 0 && all_slots_valid(self.characters@)
                && self.stagger_delay_seconds == 0 ==> r matches Err(
                ConfigError::ZeroStaggerDelay,
            ),
            self.characters@.len() > 0 && all_slots_valid(self.characters@)
                && self.stagger_delay_seconds > 0 ==> r is Ok,
    {
        if self.characters.len() == 0 {
            return Err(ConfigError::NoCharacters);
        }
        let mut i: usize = 0;
        while i < self.characters.len()
            invariant
                i <= self.characters@.len(),
                all_slots_valid(self.characters@.take(i as int)),
            decreases self.characters@.len() - i,
        {
            let c = &self.characters[i];
            if c.slot < MIN_SLOT || c.slot > MAX_SLOT {
                let name = c.name.clone();
                proof {
                    assert(first_invalid_at(self.characters@, i as int));
                }
                return Err(ConfigError::InvalidSlot { name, slot: c.slot });
            }
            proof {
                let t = self.characters@.take(i as int + 1);
                assert forall|j: int| 0 <= j < t.len() implies slot_valid(#[trigger] t[j].slot) by {
                    if j < i {
                        assert(t[j] == self.characters@.take(i as int)[j]);
                    }
                }
            }
            i = i + 1;
        }
        proof {
            assert(self.characters@.take(i as int) =~= self.characters@);
        }
        if self.stagger_delay_seconds == 0 {
            return Err(ConfigError::ZeroStaggerDelay);
        }
        Ok(())
    }

    /// The characters chosen by `names`, in configuration order: all of them when
    /// `names` is empty, else those whose name equals one of `names` ignoring
    /// ASCII case.
    pub fn filter_characters(&self, names: &[String]) -> (r: Vec<&Character>)
        ensures
            r@.map_values(|c: &Character| *c) =~= self.characters@.filter(|c: Character| selected(names@, c)),
    {
        let mut out: Vec<&Character> = Vec::new();
        let mut i: usize = 0;
        while i < self.characters.len()
            invariant
                i <= self.characters@.len(),
                out@.map_values(|c: &Character| *c) =~= self.characters@.take(i as int).filter(|c: Character| selected(names@, c)),
            decreases self.characters@.len() - i,
        {
            let c = &self.characters[i];
            let keep = names.len() == 0 || name_listed(names, &c.name);
            proof {
                reveal(Seq::filter);
                assert(self.characters@.take(i as int + 1).drop_last() =~= self.characters@.take(
                    i as int,
                ));
            }
            if keep {
                out.push(c);
            }
            i = i + 1;
        }
        proof {
            assert(self.characters@.take(i as int) =~= self.characters@);
        }
        out
    }
}

/// Whether one of `names` equals `name`, ignoring ASCII case.
fn name_listed(names: &[String], name: &String) -> (r: bool)
    ensures
        r == exists|k: int|
            0 <= k < names@.len() && eq_ignore_case(
                encode_utf8(#[trigger] names@[k]@),
                encode_utf8(name@),
            ),
{
    let mut k: usize = 0;
    while k < names.len()
        invariant
            k <= names@.len(),
            forall|j: int|
                0 <= j < k ==> !eq_ignore_case(
                    encode_utf8(#[trigger] names@[j]@),
                    encode_utf8(name@),
                ),
        decreases names@.len() - k,
    {
        if str_eq_ignore_case(names[k].as_str(), name.as_str()) {
            return true;
        }
        k = k + 1;
    }
    false
}

} // verus!

use vstd::prelude::*;

use crate::cards::{Control, KeyId, MouseId};

verus! {

// The small, plain-valued part of the session's settings and lobby state:
// world generation, menu navigation, replays, and the textual encoding of a
// captured control.

/// Which menu surface is on top.
#[derive(Clone, Copy, Debug, PartialEq, Eq, Hash, Structural)]
pub enum GuiElement {
    EscMenu,
    CardEditor,
    MainMenu,
    MultiplayerMenu,
    LobbyBrowser,
    LobbyQueue,
    SingleplayerMenu,
    ModeGui,
    DeckPicker,
}

/// How the world is generated: the default terrain, or a seeded control
/// room.
#[derive(Clone, Copy, Debug, PartialEq, Eq, Structural)]
pub enum WorldGenSettings {
    Normal,
    Control(u32),
}

impl Default for WorldGenSettings {
    fn default() -> (r: Self)
        ensures
            r == WorldGenSettings::Normal,
    {
        WorldGenSettings::Normal
    }
}

impl WorldGenSettings {
    pub fn get_name(&self) -> (r: &str)
        ensures
            self is Normal ==> r@ == "Normal"@,
            self is Control ==> r@ == "Control"@,
    {
        match self {
            WorldGenSettings::Normal => "Normal",
            WorldGenSettings::Control(_) => "Control",
        }
    }

    pub fn get_seed(&self) -> (r: u32)
        ensures
            r == match *self {
                WorldGenSettings::Normal => 0u32,
                WorldGenSettings::Control(seed) => seed,
            },
    {
        match self {
            WorldGenSettings::Normal => 0,
            WorldGenSettings::Control(seed) => *seed,
        }
    }
}

/// Where replays are written and whether they are being recorded.
#[derive(Debug, PartialEq, Eq)]
pub struct ReplaySettings {
    pub replay_folder: String,
    pub record_replay: bool,
}

/// The identifier of a multiplayer room.
#[derive(Debug, Default, PartialEq, Eq, Hash)]
pub struct RoomId(pub String);

/// The textual form of each control the keybind editor offers.
pub fn control_variants() -> (r: Vec<String>)
    ensures
        r@.len() == 11,
        r@[0]@ == "Mouse::Left"@,
        r@[1]@ == "Mouse::Middle"@,
        r@[2]@ == "Mouse::Right"@,
        r@[3]@ == "Key::Escape"@,
        r@[4]@ == "Key::Tab"@,
        r@[5]@ == "Key::Enter"@,
        r@[6]@ == "Key::Space"@,
        r@[7]@ == "Key::ArrowUp"@,
        r@[8]@ == "Key::ArrowDown"@,
        r@[9]@ == "Key::ArrowLeft"@,
        r@[10]@ == "Key::ArrowRight"@,
{
    let mut v: Vec<String> = Vec::new();
    v.push("Mouse::Left".to_string());
    v.push("Mouse::Middle".to_string());
    v.push("Mouse::Right".to_string());
    v.push("Key::Escape".to_string());
    v.push("Key::Tab".to_string());
    v.push("Key::Enter".to_string());
    v.push("Key::Space".to_string());
    v.push("Key::ArrowUp".to_string());
    v.push("Key::ArrowDown".to_string());
    v.push("Key::ArrowLeft".to_string());
    v.push("Key::ArrowRight".to_string());
    v
}

/// Which control a text names: exactly the eleven strings that
/// `control_variants` offers are accepted.
pub open spec fn control_of_string(s: Seq<char>) -> Option<Control> {
    if s == "Mouse::Left"@ {
        Some(Control::Mouse(MouseId::Left))
    } else if s == "Mouse::Middle"@ {
        Some(Control::Mouse(MouseId::Middle))
    } else if s == "Mouse::Right"@ {
        Some(Control::Mouse(MouseId::Right))
    } else if s == "Key::Escape"@ {
        Some(Control::Key(KeyId::Escape))
    } else if s == "Key::Tab"@ {
        Some(Control::Key(KeyId::Tab))
    } else if s == "Key::Enter"@ {
        Some(Control::Key(KeyId::Enter))
    } else if s == "Key::Space"@ {
        Some(Control::Key(KeyId::Space))
    } else if s == "Key::ArrowUp"@ {
        Some(Control::Key(KeyId::ArrowUp))
    } else if s == "Key::ArrowDown"@ {
        Some(Control::Key(KeyId::ArrowDown))
    } else if s == "Key::ArrowLeft"@ {
        Some(Control::Key(KeyId::ArrowLeft))
    } else if s == "Key::ArrowRight"@ {
        Some(Control::Key(KeyId::ArrowRight))
    } else {
        None
    }
}

/// Parse the textual form of a control back into its value.
pub fn parse_control(s: &String) -> (r: Option<Control>)
    ensures
        r == control_of_string(s@),
{
    if *s == "Mouse::Left".to_string() {
        Some(Control::Mouse(MouseId::Left))
    } else if *s == "Mouse::Middle".to_string() {
        Some(Control::Mouse(MouseId::Middle))
    } else if *s == "Mouse::Right".to_string() {
        Some(Control::Mouse(MouseId::Right))
    } else if *s == "Key::Escape".to_string() {
        Some(Control::Key(KeyId::Escape))
    } else if *s == "Key::Tab".to_string() {
        Some(Control::Key(KeyId::Tab))
    } else if *s == "Key::Enter".to_string() {
        Some(Control::Key(KeyId::Enter))
    } else if *s == "Key::Space".to_string() {
        Some(Control::Key(KeyId::Space))
    } else if *s == "Key::ArrowUp".to_string() {
        Some(Control::Key(KeyId::ArrowUp))
    } else if *s == "Key::ArrowDown".to_string() {
        Some(Control::Key(KeyId::ArrowDown))
    } else if *s == "Key::ArrowLeft".to_string() {
        Some(Control::Key(KeyId::ArrowLeft))
    } else if *s == "Key::ArrowRight".to_string() {
        Some(Control::Key(KeyId::ArrowRight))
    } else {
        None
    }
}

} // verus!

use card_system::cards::{Control, KeyId, MouseId};
use card_system::settings::{
    control_variants, parse_control, GuiElement, ReplaySettings, RoomId, WorldGenSettings,
};

#[test]
fn world_gen_names_and_seeds() {
    assert_eq!(WorldGenSettings::Normal.get_name(), "Normal");
    assert_eq!(WorldGenSettings::Control(42).get_name(), "Control");
    assert_eq!(WorldGenSettings::Normal.get_seed(), 0);
    assert_eq!(WorldGenSettings::Control(42).get_seed(), 42);
    assert_eq!(WorldGenSettings::default(), WorldGenSettings::Normal);
}

#[test]
fn control_variants_lists_all_eleven() {
    let v = control_variants();
    assert_eq!(v.len(), 11);
    assert_eq!(v[0], "Mouse::Left");
    assert_eq!(v[1], "Mouse::Middle");
    assert_eq!(v[2], "Mouse::Right");
    assert_eq!(v[3], "Key::Escape");
    assert_eq!(v[10], "Key::ArrowRight");
}

#[test]
fn parse_control_round_trips_the_variants() {
    let expected = [
        Control::Mouse(MouseId::Left),
        Control::Mouse(MouseId::Middle),
        Control::Mouse(MouseId::Right),
        Control::Key(KeyId::Escape),
        Control::Key(KeyId::Tab),
        Control::Key(KeyId::Enter),
        Control::Key(KeyId::Space),
        Control::Key(KeyId::ArrowUp),
        Control::Key(KeyId::ArrowDown),
        Control::Key(KeyId::ArrowLeft),
        Control::Key(KeyId::ArrowRight),
    ];
    for (text, control) in control_variants().iter().zip(expected.iter()) {
        assert_eq!(parse_control(text), Some(*control));
    }
}

#[test]
fn parse_control_rejects_unknown_text() {
    assert_eq!(parse_control(&"Key::Backspace".to_string()), None);
    assert_eq!(parse_control(&"Mouse::LeftX".to_string()), None);
    assert_eq!(parse_control(&"".to_string()), None);
}

#[test]
fn room_and_menu_values() {
    let room = RoomId("lobby-7".to_string());
    assert_eq!(room.0, "lobby-7");
    assert_eq!(RoomId::default().0, "");
    assert_ne!(GuiElement::EscMenu, GuiElement::CardEditor);
    let replays = ReplaySettings { replay_folder: "replays".to_string(), record_replay: true };
    assert!(replays.record_replay);
    assert_eq!(replays.replay_folder, "replays");
}

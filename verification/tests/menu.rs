use crab_invaders::menu::{MenuScreen, MenuState};

#[test]
fn nav_wraps_around() {
    let mut m = MenuState::new();
    assert_eq!(m.items(false, 80).len(), 4);
    m.up(false, 80);
    assert_eq!(m.selected, 3);
    m.down(false, 80);
    assert_eq!(m.selected, 0);
}

#[test]
fn settings_labels_reflect_state() {
    let m = MenuState {
        screen: MenuScreen::Settings,
        selected: 0,
    };
    let items = m.items(true, 50);
    assert_eq!(items[0], "MUTE: ON");
    assert_eq!(items[1], "VOLUME: 50%");
    assert_eq!(items[2], "BACK");
}

#[test]
fn main_and_help_labels() {
    let mut m = MenuState::new();
    assert_eq!(m.items(false, 80), vec!["START", "HOW TO PLAY", "SETTINGS", "QUIT"]);
    m.goto(MenuScreen::Help);
    assert_eq!(m.items(false, 80), vec!["BACK"]);
    m.goto(MenuScreen::Settings);
    assert_eq!(m.items(false, 100), vec!["MUTE: OFF", "VOLUME: 100%", "BACK"]);
    assert_eq!(m.selected, 0);
}

#[test]
fn down_wraps_at_bottom() {
    let mut m = MenuState {
        screen: MenuScreen::Settings,
        selected: 2,
    };
    m.down(false, 0);
    assert_eq!(m.selected, 0);
    m.up(false, 0);
    assert_eq!(m.selected, 2);
}

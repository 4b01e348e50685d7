use lumber::controls::{
    Controls, GameAction, InputEvent, TickInput, KEY_A, KEY_D, KEY_DOWN, KEY_ENTER, KEY_I, KEY_J,
    KEY_K, KEY_L, KEY_LEFT, KEY_RIGHT, KEY_S, KEY_UP, KEY_W,
};
use lumber::game::PlayerAction;
use lumber::menu::MenuAction;
use std::collections::HashMap;

fn press(code: i32) -> InputEvent {
    InputEvent::Key { code, pressed: true }
}

#[test]
fn chops_come_from_left_and_right() {
    assert_eq!(GameAction::Left.into_player_action(), Some(PlayerAction::ChopLeft));
    assert_eq!(GameAction::Right.into_player_action(), Some(PlayerAction::ChopRight));
    assert_eq!(GameAction::Up.into_player_action(), None);
    assert_eq!(GameAction::Down.into_player_action(), None);
    assert_eq!(GameAction::Enter.into_player_action(), None);
}

#[test]
fn menu_moves_come_from_up_down_and_enter() {
    assert_eq!(GameAction::Up.into_menu_action(), Some(MenuAction::Up));
    assert_eq!(GameAction::Down.into_menu_action(), Some(MenuAction::Down));
    assert_eq!(GameAction::Enter.into_menu_action(), Some(MenuAction::Select));
    assert_eq!(GameAction::Left.into_menu_action(), None);
    assert_eq!(GameAction::Right.into_menu_action(), None);
}

#[test]
fn default_bindings_cover_arrows_wasd_ijkl_and_enter() {
    let controls = Controls::default();
    let expected = [
        (KEY_UP, GameAction::Up),
        (KEY_LEFT, GameAction::Left),
        (KEY_DOWN, GameAction::Down),
        (KEY_RIGHT, GameAction::Right),
        (KEY_W, GameAction::Up),
        (KEY_A, GameAction::Left),
        (KEY_S, GameAction::Down),
        (KEY_D, GameAction::Right),
        (KEY_I, GameAction::Up),
        (KEY_J, GameAction::Left),
        (KEY_K, GameAction::Down),
        (KEY_L, GameAction::Right),
        (KEY_ENTER, GameAction::Enter),
    ];
    for (code, action) in expected {
        assert_eq!(controls.convert(press(code)), Some(action));
    }
    assert_eq!(controls.convert(press(32)), None);
    assert_eq!(controls.convert(press(0)), None);
}

#[test]
fn key_codes_are_those_of_the_window_library() {
    assert_eq!(
        [KEY_A, KEY_D, KEY_I, KEY_J, KEY_K, KEY_L, KEY_S, KEY_W],
        [65, 68, 73, 74, 75, 76, 83, 87]
    );
    assert_eq!([KEY_ENTER, KEY_RIGHT, KEY_LEFT, KEY_DOWN, KEY_UP], [257, 262, 263, 264, 265]);
}

#[test]
fn only_a_press_counts() {
    let controls = Controls::default();
    assert_eq!(controls.convert(InputEvent::Key { code: KEY_LEFT, pressed: false }), None);
    assert_eq!(controls.convert(InputEvent::Close), None);
    assert_eq!(controls.convert(InputEvent::Other), None);
}

#[test]
fn custom_bindings_replace_the_default() {
    let mut bindings = HashMap::new();
    bindings.insert(32, GameAction::Enter);
    let controls = Controls::new(bindings);
    assert_eq!(controls.convert(press(32)), Some(GameAction::Enter));
    assert_eq!(controls.convert(press(KEY_ENTER)), None);
}

#[test]
fn first_bound_press_wins() {
    let controls = Controls::default();
    let events = vec![
        InputEvent::Other,
        InputEvent::Key { code: KEY_LEFT, pressed: false },
        press(32),
        press(KEY_D),
        press(KEY_ENTER),
    ];
    assert_eq!(
        controls.read(&events),
        TickInput { action: Some(GameAction::Right), close_requested: false }
    );
}

#[test]
fn close_is_seen_wherever_it_stands() {
    let controls = Controls::default();
    let before = vec![InputEvent::Close, press(KEY_UP)];
    assert_eq!(
        controls.read(&before),
        TickInput { action: Some(GameAction::Up), close_requested: true }
    );
    let after = vec![press(KEY_UP), InputEvent::Other, InputEvent::Close];
    assert_eq!(
        controls.read(&after),
        TickInput { action: Some(GameAction::Up), close_requested: true }
    );
}

#[test]
fn no_events_no_input() {
    let controls = Controls::default();
    assert_eq!(controls.read(&vec![]), TickInput { action: None, close_requested: false });
}

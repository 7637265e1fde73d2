use space_structures::inputs::{keyboard_input, InputAction, KeyState};
use space_structures::plugin_groups::{GamePart, GamePlugins, UtilityPlugins};

fn no_keys() -> KeyState {
    KeyState {
        space_just_released: false,
        w: false,
        s: false,
        a: false,
        d: false,
        x: false,
        g_just_pressed: false,
        q: false,
        e: false,
    }
}

#[test]
fn idle_keys_ask_for_nothing() {
    assert_eq!(keyboard_input(&no_keys()), Vec::<InputAction>::new());
}

#[test]
fn every_key_has_its_action() {
    assert_eq!(
        keyboard_input(&KeyState { space_just_released: true, ..no_keys() }),
        vec![InputAction::SpacePressed]
    );
    assert_eq!(keyboard_input(&KeyState { w: true, ..no_keys() }), vec![InputAction::Move { x: 0, y: 1 }]);
    assert_eq!(keyboard_input(&KeyState { s: true, ..no_keys() }), vec![InputAction::Move { x: 0, y: -1 }]);
    assert_eq!(keyboard_input(&KeyState { a: true, ..no_keys() }), vec![InputAction::Move { x: -1, y: 0 }]);
    assert_eq!(keyboard_input(&KeyState { d: true, ..no_keys() }), vec![InputAction::Move { x: 1, y: 0 }]);
    assert_eq!(keyboard_input(&KeyState { x: true, ..no_keys() }), vec![InputAction::Break]);
    assert_eq!(keyboard_input(&KeyState { g_just_pressed: true, ..no_keys() }), vec![InputAction::Shoot]);
    assert_eq!(keyboard_input(&KeyState { q: true, ..no_keys() }), vec![InputAction::Rotate { factor: 1 }]);
    assert_eq!(keyboard_input(&KeyState { e: true, ..no_keys() }), vec![InputAction::Rotate { factor: -1 }]);
}

#[test]
fn opposite_keys_cancel() {
    assert_eq!(keyboard_input(&KeyState { w: true, s: true, ..no_keys() }), Vec::<InputAction>::new());
    assert_eq!(keyboard_input(&KeyState { a: true, d: true, ..no_keys() }), Vec::<InputAction>::new());
    assert_eq!(
        keyboard_input(&KeyState { a: true, d: true, w: true, ..no_keys() }),
        vec![InputAction::Move { x: 0, y: 1 }]
    );
    assert_eq!(
        keyboard_input(&KeyState { q: true, e: true, ..no_keys() }),
        vec![InputAction::Rotate { factor: 1 }, InputAction::Rotate { factor: -1 }]
    );
}

#[test]
fn actions_come_in_a_fixed_order() {
    let all = KeyState {
        space_just_released: true,
        w: true,
        s: false,
        a: true,
        d: false,
        x: true,
        g_just_pressed: true,
        q: true,
        e: true,
    };
    assert_eq!(
        keyboard_input(&all),
        vec![
            InputAction::SpacePressed,
            InputAction::Move { x: -1, y: 1 },
            InputAction::Break,
            InputAction::Shoot,
            InputAction::Rotate { factor: 1 },
            InputAction::Rotate { factor: -1 },
        ]
    );
}

#[test]
fn game_plugins_are_added_in_order() {
    assert_eq!(
        GamePlugins { debug_enable: true }.build(),
        vec![
            GamePart::Grid { debug_enable: true },
            GamePart::Inputs,
            GamePart::Player,
            GamePart::Movement,
            GamePart::Structures { debug_enable: true },
            GamePart::Ore,
        ]
    );
    assert_eq!(GamePlugins { debug_enable: false }.build()[0], GamePart::Grid { debug_enable: false });
    assert_eq!(GamePlugins { debug_enable: false }.build()[4], GamePart::Structures { debug_enable: false });
}

#[test]
fn utility_plugins_are_added_in_order() {
    assert_eq!(
        UtilityPlugins { debug_enable: true }.build(),
        vec![GamePart::Debug { enable: true }, GamePart::Camera]
    );
    assert_eq!(
        UtilityPlugins { debug_enable: false }.build(),
        vec![GamePart::Debug { enable: false }, GamePart::Camera]
    );
}

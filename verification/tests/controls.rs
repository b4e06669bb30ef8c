use std::collections::HashSet;
use wgpu_learning::model::controls::{
    make_camera_controls, select_font, CamDir, CameraControls, FontSizeStep, InputState,
    KeyAction, KEY_A, KEY_D, KEY_ESCAPE, KEY_K, KEY_L, KEY_LEFT, KEY_LEFT_SHIFT, KEY_M, KEY_N,
    KEY_RIGHT, KEY_S, KEY_SPACE, KEY_W, KEY_Z,
};
use wgpu_learning::renderer_backend::renderer::ViewSelector;

fn held(keys: &[i32]) -> HashSet<i32> {
    keys.iter().copied().collect()
}

#[test]
fn no_keys_no_motion() {
    assert_eq!(make_camera_controls(&held(&[])), CameraControls::default());
    assert_eq!(CameraControls::default().x_axis, CamDir::Zero);
}

#[test]
fn single_keys_move_one_axis() {
    let up = make_camera_controls(&held(&[KEY_SPACE]));
    assert_eq!((up.x_axis, up.y_axis, up.z_axis), (CamDir::Zero, CamDir::Positive, CamDir::Zero));
    let left = make_camera_controls(&held(&[KEY_A]));
    assert_eq!(left.x_axis, CamDir::Negative);
    let forward = make_camera_controls(&held(&[KEY_W]));
    assert_eq!(forward.z_axis, CamDir::Positive);
    let back = make_camera_controls(&held(&[KEY_S, 999]));
    assert_eq!((back.x_axis, back.y_axis, back.z_axis), (CamDir::Zero, CamDir::Zero, CamDir::Negative));
}

#[test]
fn later_binding_wins_on_opposed_keys() {
    let ctrls = make_camera_controls(&held(&[KEY_SPACE, KEY_LEFT_SHIFT, KEY_A, KEY_D, KEY_W, KEY_S]));
    assert_eq!(ctrls.y_axis, CamDir::Negative);
    assert_eq!(ctrls.x_axis, CamDir::Positive);
    assert_eq!(ctrls.z_axis, CamDir::Negative);
}

#[test]
fn font_chosen_by_index_modulo_count() {
    let ids = [3usize, 5, 9];
    assert_eq!(select_font(&ids, 0), 3);
    assert_eq!(select_font(&ids, 2), 9);
    assert_eq!(select_font(&ids, 4), 5);
    assert_eq!(select_font(&ids, -3), 3);
}

#[test]
fn fresh_input_state() {
    let state = InputState::new();
    assert!(state.keys_pressed.is_empty());
    assert!(!state.paused && !state.draw_wireframes && !state.should_close);
    assert_eq!(state.view_selector, ViewSelector::World3d);
    assert_eq!(state.font_index, 0);
}

#[test]
fn pressed_keys_are_held_until_released() {
    let mut state = InputState::new();
    state.handle_key(KEY_W, KeyAction::Press, 1);
    state.handle_key(KEY_A, KeyAction::Press, 1);
    state.handle_key(KEY_W, KeyAction::Repeat, 1);
    assert_eq!(state.keys_pressed, held(&[KEY_W, KEY_A]));
    state.handle_key(KEY_W, KeyAction::Release, 1);
    assert_eq!(state.keys_pressed, held(&[KEY_A]));
    state.handle_key(KEY_D, KeyAction::Release, 1);
    assert_eq!(state.keys_pressed, held(&[KEY_A]));
}

#[test]
fn toggles_flip_on_press_only() {
    let mut state = InputState::new();
    state.handle_key(KEY_SPACE, KeyAction::Press, 1);
    state.handle_key(KEY_SPACE, KeyAction::Release, 1);
    state.handle_key(KEY_Z, KeyAction::Press, 1);
    assert!(state.paused && state.draw_wireframes);
    state.handle_key(KEY_SPACE, KeyAction::Repeat, 1);
    state.handle_key(KEY_SPACE, KeyAction::Press, 1);
    assert!(!state.paused && state.draw_wireframes);
}

#[test]
fn escape_asks_to_close() {
    let mut state = InputState::new();
    state.handle_key(KEY_ESCAPE, KeyAction::Release, 1);
    assert!(!state.should_close);
    state.handle_key(KEY_ESCAPE, KeyAction::Press, 1);
    assert!(state.should_close);
    state.handle_key(KEY_W, KeyAction::Press, 1);
    assert!(state.should_close);
}

#[test]
fn arrows_cycle_the_views() {
    let mut state = InputState::new();
    state.handle_key(KEY_RIGHT, KeyAction::Press, 1);
    assert_eq!(state.view_selector, ViewSelector::MapView);
    state.handle_key(KEY_RIGHT, KeyAction::Press, 1);
    assert_eq!(state.view_selector, ViewSelector::Lava);
    state.handle_key(KEY_LEFT, KeyAction::Press, 1);
    state.handle_key(KEY_LEFT, KeyAction::Press, 1);
    assert_eq!(state.view_selector, ViewSelector::World3d);
}

#[test]
fn font_index_stays_among_loaded_fonts() {
    let mut state = InputState::new();
    state.handle_key(KEY_N, KeyAction::Press, 3);
    assert_eq!(state.font_index, 0);
    for _ in 0..5 {
        state.handle_key(KEY_M, KeyAction::Press, 3);
    }
    assert_eq!(state.font_index, 2);
    state.handle_key(KEY_N, KeyAction::Press, 3);
    assert_eq!(state.font_index, 1);
}

#[test]
fn font_size_keys_ask_for_steps() {
    let mut state = InputState::new();
    assert_eq!(state.handle_key(KEY_L, KeyAction::Press, 1), FontSizeStep::Grow);
    assert_eq!(state.handle_key(KEY_K, KeyAction::Press, 1), FontSizeStep::Shrink);
    assert_eq!(state.handle_key(KEY_K, KeyAction::Release, 1), FontSizeStep::Keep);
    assert_eq!(state.handle_key(KEY_W, KeyAction::Press, 1), FontSizeStep::Keep);
}

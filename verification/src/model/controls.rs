use crate::renderer_backend::renderer::ViewSelector;
use std::collections::HashSet;
use vstd::prelude::*;

verus! {

broadcast use vstd::std_specs::hash::group_hash_axioms;

/// Key codes as the windowing layer (GLFW) numbers them.
pub const KEY_SPACE: i32 = 32;

pub const KEY_A: i32 = 65;

pub const KEY_D: i32 = 68;

pub const KEY_K: i32 = 75;

pub const KEY_L: i32 = 76;

pub const KEY_M: i32 = 77;

pub const KEY_N: i32 = 78;

pub const KEY_S: i32 = 83;

pub const KEY_W: i32 = 87;

pub const KEY_Z: i32 = 90;

pub const KEY_ESCAPE: i32 = 256;

pub const KEY_RIGHT: i32 = 262;

pub const KEY_LEFT: i32 = 263;

pub const KEY_LEFT_SHIFT: i32 = 340;

/// The bindings use GLFW's key codes: Space 32, the letters by their upper-case
/// ASCII codes, Escape 256, Right 262, Left 263, Left Shift 340.
pub proof fn lemma_key_codes()
    ensures
        KEY_SPACE == 32 && KEY_ESCAPE == 256 && KEY_RIGHT == 262 && KEY_LEFT == 263
            && KEY_LEFT_SHIFT == 340,
        KEY_A == 'A' as i32 && KEY_D == 'D' as i32 && KEY_K == 'K' as i32 && KEY_L == 'L' as i32
            && KEY_M == 'M' as i32 && KEY_N == 'N' as i32 && KEY_S == 'S' as i32 && KEY_W
            == 'W' as i32 && KEY_Z == 'Z' as i32,
{
}

/// Which way the camera moves along one axis.
#[derive(PartialEq, Eq, Structural, Debug, Clone, Copy)]
pub enum CamDir {
    Zero,
    Positive,
    Negative,
}

impl Default for CamDir {
    /// Standing still.
    fn default() -> (dir: CamDir)
        ensures
            dir == CamDir::Zero,
    {
        CamDir::Zero
    }
}

/// How the camera moves along each of its three axes.
#[derive(PartialEq, Eq, Structural, Debug, Clone, Copy)]
pub struct CameraControls {
    pub x_axis: CamDir,
    pub y_axis: CamDir,
    pub z_axis: CamDir,
}

impl Default for CameraControls {
    /// Standing still along every axis.
    fn default() -> (ctrls: CameraControls)
        ensures
            ctrls == (CameraControls { x_axis: CamDir::Zero, y_axis: CamDir::Zero, z_axis: CamDir::Zero }),
    {
        CameraControls { x_axis: CamDir::Zero, y_axis: CamDir::Zero, z_axis: CamDir::Zero }
    }
}

/// The direction along one axis when `first` moves it in `first_dir` and `second`
/// in `second_dir`: the second key wins when both are held.
pub open spec fn axis_dir(
    keys: Set<i32>,
    first: i32,
    first_dir: CamDir,
    second: i32,
    second_dir: CamDir,
) -> CamDir {
    if keys.contains(second) {
        second_dir
    } else if keys.contains(first) {
        first_dir
    } else {
        CamDir::Zero
    }
}

/// The camera controls that the held keys give: Space up and Left Shift down,
/// A left and D right, W forward and S back.
pub open spec fn controls_for(keys: Set<i32>) -> CameraControls {
    CameraControls {
        x_axis: axis_dir(keys, KEY_A, CamDir::Negative, KEY_D, CamDir::Positive),
        y_axis: axis_dir(keys, KEY_SPACE, CamDir::Positive, KEY_LEFT_SHIFT, CamDir::Negative),
        z_axis: axis_dir(keys, KEY_W, CamDir::Positive, KEY_S, CamDir::Negative),
    }
}

/// Each camera axis answers to its own pair of keys only, whatever else is held:
/// D (68) turns right and wins over A (65), which turns left; Left Shift (340) moves
/// down and wins over Space (32), which moves up; S (83) moves back and wins over
/// W (87), which moves forward; with neither key of a pair held the axis stands still.
pub proof fn lemma_controls_by_key_pairs(keys: Set<i32>)
    ensures
        controls_for(keys).x_axis == (if keys.contains(68) {
            CamDir::Positive
        } else if keys.contains(65) {
            CamDir::Negative
        } else {
            CamDir::Zero
        }),
        controls_for(keys).y_axis == (if keys.contains(340) {
            CamDir::Negative
        } else if keys.contains(32) {
            CamDir::Positive
        } else {
            CamDir::Zero
        }),
        controls_for(keys).z_axis == (if keys.contains(83) {
            CamDir::Negative
        } else if keys.contains(87) {
            CamDir::Positive
        } else {
            CamDir::Zero
        }),
{
}

/// The camera controls for the set of keys held down.
pub fn make_camera_controls(keys: &HashSet<i32>) -> (ctrls: CameraControls)
    ensures
        ctrls == controls_for(keys@),
{
    let mut ctrls = CameraControls::default();
    if keys.contains(&KEY_SPACE) {
        ctrls.y_axis = CamDir::Positive;
    }
    if keys.contains(&KEY_LEFT_SHIFT) {
        ctrls.y_axis = CamDir::Negative;
    }
    if keys.contains(&KEY_A) {
        ctrls.x_axis = CamDir::Negative;
    }
    if keys.contains(&KEY_D) {
        ctrls.x_axis = CamDir::Positive;
    }
    if keys.contains(&KEY_W) {
        ctrls.z_axis = CamDir::Positive;
    }
    if keys.contains(&KEY_S) {
        ctrls.z_axis = CamDir::Negative;
    }
    ctrls
}

/// The id of the font at `font_index` among the loaded fonts' ids `font_ids`
/// (ascending), the index taken modulo their number.
pub fn select_font(font_ids: &[usize], font_index: i32) -> (id: usize)
    requires
        0 < font_ids@.len() <= i32::MAX,
        font_index >= 0 || (font_index as int) % (font_ids@.len() as int) == 0,
    ensures
        id == font_ids@[(font_index as int) % (font_ids@.len() as int)],
{
    let n = font_ids.len();
    if font_index >= 0 {
        font_ids[(font_index as usize) % n]
    } else {
        font_ids[0]
    }
}


/// What happened to a key.
#[derive(PartialEq, Eq, Structural, Debug, Clone, Copy)]
pub enum KeyAction {
    Press,
    Release,
    Repeat,
}

/// How a key event asks the target font size to change.
#[derive(PartialEq, Eq, Structural, Debug, Clone, Copy)]
pub enum FontSizeStep {
    Keep,
    Grow,
    Shrink,
}

/// `v` held to `0..=max`.
pub open spec fn clamp_to(v: int, max: int) -> int {
    if v < 0 {
        0
    } else if v > max {
        max
    } else {
        v
    }
}

/// What the viewer's key bindings keep track of between frames.
pub struct InputState {
    /// The keys held down.
    pub keys_pressed: HashSet<i32>,
    pub paused: bool,
    pub draw_wireframes: bool,
    pub view_selector: ViewSelector,
    /// The position of the shown font among the loaded fonts.
    pub font_index: i32,
    pub should_close: bool,
}

impl InputState {
    /// No key held, running, solid 3D world view, first font.
    pub fn new() -> (state: InputState)
        ensures
            state.keys_pressed@ == Set::<i32>::empty(),
            !state.paused,
            !state.draw_wireframes,
            state.view_selector == ViewSelector::World3d,
            state.font_index == 0,
            !state.should_close,
    {
        InputState {
            keys_pressed: HashSet::new(),
            paused: false,
            draw_wireframes: false,
            view_selector: ViewSelector::World3d,
            font_index: 0,
            should_close: false,
        }
    }

    /// Applies one key event of a viewer with `n_fonts` fonts loaded: a press or
    /// release updates the held keys; a press of Escape asks to close, Space toggles
    /// the pause, Z the wireframes, Right and Left step through the views, M and N
    /// step to the next and previous font (held to the loaded ones), and L and K ask
    /// the font to grow or shrink.
    pub fn handle_key(&mut self, key: i32, action: KeyAction, n_fonts: usize) -> (step: FontSizeStep)
        requires
            action == KeyAction::Press && (key == KEY_M || key == KEY_N) ==> 1 <= n_fonts
                <= i32::MAX && i32::MIN < old(self).font_index < i32::MAX,
        ensures
            final(self).keys_pressed@ == (match action {
                KeyAction::Press => old(self).keys_pressed@.insert(key),
                KeyAction::Release => old(self).keys_pressed@.remove(key),
                KeyAction::Repeat => old(self).keys_pressed@,
            }),
            final(self).should_close == (old(self).should_close || (action == KeyAction::Press
                && key == KEY_ESCAPE)),
            final(self).paused == (old(self).paused != (action == KeyAction::Press && key
                == KEY_SPACE)),
            final(self).draw_wireframes == (old(self).draw_wireframes != (action
                == KeyAction::Press && key == KEY_Z)),
            final(self).view_selector == (if action == KeyAction::Press && key == KEY_RIGHT {
                ViewSelector::at_position(old(self).view_selector.position() + 1)
            } else if action == KeyAction::Press && key == KEY_LEFT {
                ViewSelector::at_position(old(self).view_selector.position() + 2)
            } else {
                old(self).view_selector
            }),
            final(self).font_index == (if action == KeyAction::Press && key == KEY_M {
                clamp_to(old(self).font_index + 1, n_fonts - 1)
            } else if action == KeyAction::Press && key == KEY_N {
                clamp_to(old(self).font_index - 1, n_fonts - 1)
            } else {
                old(self).font_index as int
            }),
            step == (if action == KeyAction::Press && key == KEY_L {
                FontSizeStep::Grow
            } else if action == KeyAction::Press && key == KEY_K {
                FontSizeStep::Shrink
            } else {
                FontSizeStep::Keep
            }),
    {
        match action {
            KeyAction::Press => {
                self.keys_pressed.insert(key);
            },
            KeyAction::Release => {
                self.keys_pressed.remove(&key);
            },
            KeyAction::Repeat => {},
        }
        let mut step = FontSizeStep::Keep;
        if action == KeyAction::Press {
            if key == KEY_ESCAPE {
                self.should_close = true;
            } else if key == KEY_SPACE {
                self.paused = !self.paused;
            } else if key == KEY_Z {
                self.draw_wireframes = !self.draw_wireframes;
            } else if key == KEY_RIGHT {
                self.view_selector = self.view_selector.next_cycle();
            } else if key == KEY_LEFT {
                self.view_selector = self.view_selector.previous_cycle();
            } else if key == KEY_M || key == KEY_N {
                let max = (n_fonts as i32) - 1;
                let stepped = if key == KEY_M {
                    self.font_index + 1
                } else {
                    self.font_index - 1
                };
                self.font_index = if stepped < 0 {
                    0
                } else if stepped > max {
                    max
                } else {
                    stepped
                };
            } else if key == KEY_L {
                step = FontSizeStep::Grow;
            } else if key == KEY_K {
                step = FontSizeStep::Shrink;
            }
        }
        step
    }
}

/// Stepping the font with M or N leaves the index on one of the `n_fonts` loaded
/// fonts, where `select_font` picks that very font.
pub proof fn lemma_font_step_in_range(stepped: int, n_fonts: int)
    requires
        1 <= n_fonts,
    ensures
        0 <= clamp_to(stepped, n_fonts - 1) < n_fonts,
        clamp_to(stepped, n_fonts - 1) % n_fonts == clamp_to(stepped, n_fonts - 1),
{
    vstd::arithmetic::div_mod::lemma_small_mod(clamp_to(stepped, n_fonts - 1) as nat, n_fonts as nat);
}

} // verus!

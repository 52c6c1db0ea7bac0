//! The viewer's reactions to keyboard and mouse input: which way a key moves
//! the camera, which command it issues, which keys are held, and when the
//! camera is being rotated with the mouse.
use std::collections::HashMap;
use vstd::prelude::*;

verus! {

broadcast use vstd::std_specs::hash::group_hash_axioms;

/// The keys the viewer tells apart; `Other` stands for every key it does not
/// name.
#[derive(Clone, Copy, Debug, PartialEq, Eq, Structural)]
pub enum Key {
    W,
    A,
    S,
    D,
    Space,
    C,
    Escape,
    Numpad5,
    Numpad6,
    ShiftLeft,
    Other,
}

/// Which way a key press moves the camera.
#[derive(Clone, Copy, Debug, PartialEq, Eq, Structural)]
pub enum CameraMove {
    /// Along the horizontal viewing direction.
    Forward,
    /// Against the horizontal viewing direction.
    Backward,
    /// Against the horizontal right-hand direction.
    Left,
    /// Along the horizontal right-hand direction.
    Right,
    /// Up the vertical axis.
    Up,
    /// Down the vertical axis.
    Down,
    /// No movement.
    Stay,
}

/// What a key event asks of the viewer beyond moving the camera.
#[derive(Clone, Copy, Debug, PartialEq, Eq, Structural)]
pub enum KeyCommand {
    /// Leave the event loop.
    Exit,
    /// Print the camera state.
    DebugLog,
    /// Run the orbital computation and add its cubes to the scene.
    Compute,
    /// Nothing more.
    Nothing,
}

/// The mouse buttons the viewer tells apart.
#[derive(Clone, Copy, Debug, PartialEq, Eq, Structural)]
pub enum MouseButtonKind {
    Left,
    Other,
}

/// The camera movement for a key event: W, S, A, D, Space and C move the
/// camera forward, backward, left, right, up and down while pressed; any
/// release, and any other key, leaves it where it is.
pub open spec fn spec_camera_move(key: Key, pressed: bool) -> CameraMove {
    if !pressed {
        CameraMove::Stay
    } else {
        match key {
            Key::W => CameraMove::Forward,
            Key::S => CameraMove::Backward,
            Key::A => CameraMove::Left,
            Key::D => CameraMove::Right,
            Key::Space => CameraMove::Up,
            Key::C => CameraMove::Down,
            _ => CameraMove::Stay,
        }
    }
}

/// The command for a key event: pressing Escape exits, Numpad 5 prints the
/// camera state and Numpad 6 runs the computation; nothing else commands.
pub open spec fn spec_key_command(key: Key, pressed: bool) -> KeyCommand {
    if !pressed {
        KeyCommand::Nothing
    } else {
        match key {
            Key::Escape => KeyCommand::Exit,
            Key::Numpad5 => KeyCommand::DebugLog,
            Key::Numpad6 => KeyCommand::Compute,
            _ => KeyCommand::Nothing,
        }
    }
}

/// The camera movement for a key event (see `spec_camera_move`).
pub fn camera_move(key: Key, pressed: bool) -> (m: CameraMove)
    ensures
        m == spec_camera_move(key, pressed),
{
    if !pressed {
        return CameraMove::Stay;
    }
    match key {
        Key::W => CameraMove::Forward,
        Key::S => CameraMove::Backward,
        Key::A => CameraMove::Left,
        Key::D => CameraMove::Right,
        Key::Space => CameraMove::Up,
        Key::C => CameraMove::Down,
        _ => CameraMove::Stay,
    }
}

/// The command for a key event (see `spec_key_command`).
pub fn key_command(key: Key, pressed: bool) -> (c: KeyCommand)
    ensures
        c == spec_key_command(key, pressed),
{
    if !pressed {
        return KeyCommand::Nothing;
    }
    match key {
        Key::Escape => KeyCommand::Exit,
        Key::Numpad5 => KeyCommand::DebugLog,
        Key::Numpad6 => KeyCommand::Compute,
        _ => KeyCommand::Nothing,
    }
}

/// The slot in which the state of a key is kept.
pub open spec fn key_slot(key: Key) -> u32 {
    match key {
        Key::W => 0,
        Key::A => 1,
        Key::S => 2,
        Key::D => 3,
        Key::Space => 4,
        Key::C => 5,
        Key::Escape => 6,
        Key::Numpad5 => 7,
        Key::Numpad6 => 8,
        Key::ShiftLeft => 9,
        Key::Other => 10,
    }
}

fn key_slot_exec(key: Key) -> (s: u32)
    ensures
        s == key_slot(key),
{
    match key {
        Key::W => 0,
        Key::A => 1,
        Key::S => 2,
        Key::D => 3,
        Key::Space => 4,
        Key::C => 5,
        Key::Escape => 6,
        Key::Numpad5 => 7,
        Key::Numpad6 => 8,
        Key::ShiftLeft => 9,
        Key::Other => 10,
    }
}

/// The last recorded state of `key` in `states`: pressed, released, or never
/// seen.
pub open spec fn key_state(states: Map<u32, bool>, key: Key) -> Option<bool> {
    if states.contains_key(key_slot(key)) {
        Some(states[key_slot(key)])
    } else {
        None
    }
}

/// Whether the states say that left Shift is held down.
pub open spec fn shift_held(states: Map<u32, bool>) -> bool {
    key_state(states, Key::ShiftLeft) == Some(true)
}

/// The pressed or released state of every key the viewer has seen.
pub struct KeyStates {
    states: HashMap<u32, bool>,
}

impl View for KeyStates {
    type V = Map<u32, bool>;

    closed spec fn view(&self) -> Map<u32, bool> {
        self.states@
    }
}

/// What the viewer does about one key event.
pub struct KeyResponse {
    pub camera: CameraMove,
    pub command: KeyCommand,
}

impl KeyStates {
    /// No key seen yet.
    pub fn new() -> (s: Self)
        ensures
            s@ == Map::<u32, bool>::empty(),
    {
        KeyStates { states: HashMap::new() }
    }

    /// Records that `key` is now pressed or released.
    pub fn record(&mut self, key: Key, pressed: bool)
        ensures
            final(self)@ == old(self)@.insert(key_slot(key), pressed),
    {
        let slot = key_slot_exec(key);
        self.states.insert(slot, pressed);
    }

    /// The last recorded state of `key`.
    pub fn state(&self, key: Key) -> (r: Option<bool>)
        ensures
            r == key_state(self@, key),
    {
        let slot = key_slot_exec(key);
        match self.states.get(&slot) {
            Some(p) => Some(*p),
            None => None,
        }
    }

    /// Whether a scroll changes the voxel scale: only while left Shift is held.
    pub fn scroll_adjusts_scale(&self) -> (r: bool)
        ensures
            r == shift_held(self@),
    {
        match self.state(Key::ShiftLeft) {
            Some(p) => p,
            None => false,
        }
    }

    /// Handles a key event: records the key's new state, and says how the
    /// camera moves and which command the event issues.
    pub fn respond_to_key(&mut self, key: Key, pressed: bool) -> (r: KeyResponse)
        ensures
            final(self)@ == old(self)@.insert(key_slot(key), pressed),
            r.camera == spec_camera_move(key, pressed),
            r.command == spec_key_command(key, pressed),
    {
        let camera = camera_move(key, pressed);
        self.record(key, pressed);
        KeyResponse { camera, command: key_command(key, pressed) }
    }
}

/// Whether the camera is being rotated after a mouse button event: the left
/// button starts rotation when pressed and stops it when released; other
/// buttons change nothing.
pub open spec fn spec_rotating_after(button: MouseButtonKind, pressed: bool, rotating: bool) -> bool {
    match button {
        MouseButtonKind::Left => pressed,
        MouseButtonKind::Other => rotating,
    }
}

/// Whether the camera is being rotated after a mouse button event (see
/// `spec_rotating_after`).
pub fn rotating_after(button: MouseButtonKind, pressed: bool, rotating: bool) -> (r: bool)
    ensures
        r == spec_rotating_after(button, pressed, rotating),
{
    match button {
        MouseButtonKind::Left => pressed,
        MouseButtonKind::Other => rotating,
    }
}

/// After a key's state is recorded, reading that key gives the recorded state
/// back, and every other key reads as before.
pub proof fn law_key_state_reads_back(states: Map<u32, bool>, key: Key, pressed: bool, other: Key)
    ensures
        key_state(states.insert(key_slot(key), pressed), key) == Some(pressed),
        other != key ==> key_state(states.insert(key_slot(key), pressed), other) == key_state(
            states,
            other,
        ),
{
}

/// A key release never moves the camera and never issues a command.
pub proof fn law_release_does_nothing(key: Key)
    ensures
        spec_camera_move(key, false) == CameraMove::Stay,
        spec_key_command(key, false) == KeyCommand::Nothing,
{
}

/// No key both moves the camera and issues a command.
pub proof fn law_move_and_command_are_exclusive(key: Key, pressed: bool)
    ensures
        spec_camera_move(key, pressed) == CameraMove::Stay || spec_key_command(key, pressed)
            == KeyCommand::Nothing,
{
}

/// Scrolling adjusts the scale exactly when the last left-Shift event was a
/// press.
pub proof fn law_shift_press_enables_scaling(states: Map<u32, bool>, pressed: bool)
    ensures
        shift_held(states.insert(key_slot(Key::ShiftLeft), pressed)) == pressed,
{
}

/// Only W, S, A, D, Space and C move the camera, and only when pressed: W
/// forward, S backward (the opposite way), A left, D right (the opposite
/// way), Space up and C down (the opposite way).
pub proof fn law_only_movement_keys_move(key: Key, pressed: bool)
    ensures
        spec_camera_move(key, pressed) != CameraMove::Stay ==> pressed && (key == Key::W || key
            == Key::S || key == Key::A || key == Key::D || key == Key::Space || key == Key::C),
        pressed ==> (spec_camera_move(key, pressed) == CameraMove::Forward <==> key == Key::W),
        pressed ==> (spec_camera_move(key, pressed) == CameraMove::Backward <==> key == Key::S),
        pressed ==> (spec_camera_move(key, pressed) == CameraMove::Left <==> key == Key::A),
        pressed ==> (spec_camera_move(key, pressed) == CameraMove::Right <==> key == Key::D),
        pressed ==> (spec_camera_move(key, pressed) == CameraMove::Up <==> key == Key::Space),
        pressed ==> (spec_camera_move(key, pressed) == CameraMove::Down <==> key == Key::C),
{
}

/// Only Escape, Numpad 5 and Numpad 6 issue a command, and only when pressed:
/// Escape and nothing else exits, Numpad 5 and nothing else logs, Numpad 6 and
/// nothing else computes.
pub proof fn law_only_command_keys_command(key: Key, pressed: bool)
    ensures
        spec_key_command(key, pressed) != KeyCommand::Nothing ==> pressed && (key == Key::Escape
            || key == Key::Numpad5 || key == Key::Numpad6),
        spec_key_command(key, pressed) == KeyCommand::Exit <==> pressed && key == Key::Escape,
        spec_key_command(key, pressed) == KeyCommand::DebugLog <==> pressed && key == Key::Numpad5,
        spec_key_command(key, pressed) == KeyCommand::Compute <==> pressed && key == Key::Numpad6,
{
}

/// The left button alone drives rotation: after a left-button event the
/// camera rotates exactly while the button is down, and any other button
/// leaves rotation as it was, pressed or released.
pub proof fn law_only_left_button_rotates(pressed: bool, rotating: bool)
    ensures
        spec_rotating_after(MouseButtonKind::Left, pressed, rotating) == pressed,
        spec_rotating_after(MouseButtonKind::Other, true, rotating) == rotating,
        spec_rotating_after(MouseButtonKind::Other, false, rotating) == rotating,
{
}

/// Scaling by scroll depends on left Shift alone: with no key seen it is off,
/// recording any other key leaves it as it was, and recording left Shift sets
/// it to whether Shift was pressed.
pub proof fn law_scaling_depends_on_shift_alone(states: Map<u32, bool>, key: Key, pressed: bool)
    ensures
        !shift_held(Map::<u32, bool>::empty()),
        key != Key::ShiftLeft ==> shift_held(states.insert(key_slot(key), pressed)) == shift_held(
            states,
        ),
        key == Key::ShiftLeft ==> shift_held(states.insert(key_slot(key), pressed)) == pressed,
{
}

} // verus!

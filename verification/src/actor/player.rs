//! The human player: answers action queries from the key state the host
//! polls once per tick, and debounces the edge-triggered keys itself.

use vstd::prelude::*;

use crate::actor::{Action, Actor};
use crate::board::Board;
use crate::event::KeyCode;
use crate::tetrimino::TileType;

verus! {

/// The keys the player bindings read, as polled for one tick.
#[derive(Copy, Clone, Debug)]
pub struct KeyState {
    pub rcontrol: bool,
    pub y: bool,
    pub z: bool,
    pub up: bool,
    pub x: bool,
    pub space: bool,
    pub left: bool,
    pub right: bool,
    pub down: bool,
}

impl KeyState {
    /// No key held.
    pub fn none() -> (r: KeyState)
        ensures
            !r.rcontrol && !r.y && !r.z && !r.up && !r.x && !r.space && !r.left && !r.right
                && !r.down,
    {
        KeyState {
            rcontrol: false,
            y: false,
            z: false,
            up: false,
            x: false,
            space: false,
            left: false,
            right: false,
            down: false,
        }
    }
}

/// The human actor: the keys currently held, fed by the host each tick,
/// and which edge-triggered keys were already down last tick.
#[derive(Copy, Clone, Debug)]
pub struct Player {
    pub keys: KeyState,
    pub was_rcontrol_pressed: bool,
    pub was_y_pressed: bool,
    pub was_z_pressed: bool,
    pub was_up_pressed: bool,
    pub was_x_pressed: bool,
    pub was_space_pressed: bool,
}

impl Player {
    /// Whether the key is held this tick.
    pub open spec fn spec_held(self, keycode: KeyCode) -> bool {
        match keycode {
            KeyCode::RControl => self.keys.rcontrol,
            KeyCode::Y => self.keys.y,
            KeyCode::Z => self.keys.z,
            KeyCode::Up => self.keys.up,
            KeyCode::X => self.keys.x,
            KeyCode::Space => self.keys.space,
            KeyCode::Left => self.keys.left,
            KeyCode::Right => self.keys.right,
            KeyCode::Down => self.keys.down,
            _ => false,
        }
    }

    /// Whether a held key still counts: the edge-triggered keys count only
    /// on a fresh press, every other key counts while held.
    pub open spec fn spec_is_valid(self, keycode: KeyCode) -> bool {
        match keycode {
            KeyCode::RControl => !self.was_rcontrol_pressed,
            KeyCode::Y => !self.was_y_pressed,
            KeyCode::Z => !self.was_z_pressed,
            KeyCode::Up => !self.was_up_pressed,
            KeyCode::X => !self.was_x_pressed,
            KeyCode::Space => !self.was_space_pressed,
            _ => true,
        }
    }

    /// Whether the action is asserted this tick, under the player's key
    /// bindings and debouncing.
    pub open spec fn spec_check(self, action: Action) -> bool {
        match action {
            Action::RotateLeft => (self.spec_held(KeyCode::RControl) && self.spec_is_valid(
                KeyCode::RControl,
            )) || (self.spec_held(KeyCode::Y) && self.spec_is_valid(KeyCode::Y)) || (self.spec_held(
                KeyCode::Z,
            ) && self.spec_is_valid(KeyCode::Z)),
            Action::RotateRight => (self.spec_held(KeyCode::Up) && self.spec_is_valid(KeyCode::Up))
                || (self.spec_held(KeyCode::X) && self.spec_is_valid(KeyCode::X)),
            Action::MoveLeft => self.spec_held(KeyCode::Left),
            Action::MoveRight => self.spec_held(KeyCode::Right),
            Action::SoftDrop => self.spec_held(KeyCode::Down),
            Action::HardDrop => self.spec_held(KeyCode::Space) && self.spec_is_valid(
                KeyCode::Space,
            ),
            Action::Drop => false,
        }
    }

    /// A fresh player with nothing held and nothing remembered.
    pub fn new() -> (r: Player)
        ensures
            !r.keys.rcontrol && !r.keys.y && !r.keys.z && !r.keys.up && !r.keys.x && !r.keys.space
                && !r.keys.left && !r.keys.right && !r.keys.down,
            !r.was_rcontrol_pressed && !r.was_y_pressed && !r.was_z_pressed && !r.was_up_pressed
                && !r.was_x_pressed && !r.was_space_pressed,
    {
        Player {
            keys: KeyState::none(),
            was_rcontrol_pressed: false,
            was_y_pressed: false,
            was_z_pressed: false,
            was_up_pressed: false,
            was_x_pressed: false,
            was_space_pressed: false,
        }
    }

    /// Feeds the key state the host polled for this tick.
    pub fn set_keys(&mut self, keys: KeyState)
        ensures
            final(self).keys == keys,
            final(self).was_rcontrol_pressed == old(self).was_rcontrol_pressed,
            final(self).was_y_pressed == old(self).was_y_pressed,
            final(self).was_z_pressed == old(self).was_z_pressed,
            final(self).was_up_pressed == old(self).was_up_pressed,
            final(self).was_x_pressed == old(self).was_x_pressed,
            final(self).was_space_pressed == old(self).was_space_pressed,
    {
        self.keys = keys;
    }

    /// Whether a held key still counts this tick (edge debouncing).
    pub fn is_valid(&mut self, keycode: KeyCode) -> (r: bool)
        ensures
            *final(self) == *old(self),
            r == old(self).spec_is_valid(keycode),
    {
        match keycode {
            KeyCode::RControl => !self.was_rcontrol_pressed,
            KeyCode::Y => !self.was_y_pressed,
            KeyCode::Z => !self.was_z_pressed,
            KeyCode::Up => !self.was_up_pressed,
            KeyCode::X => !self.was_x_pressed,
            KeyCode::Space => !self.was_space_pressed,
            _ => true,
        }
    }

    /// Whether any of the given keys is held and still counts.
    fn check_keys(&mut self, keycodes: &[KeyCode]) -> (r: bool)
        ensures
            *final(self) == *old(self),
            r == exists|i: int|
                0 <= i < keycodes@.len() && old(self).spec_held(#[trigger] keycodes@[i]) && old(
                    self,
                ).spec_is_valid(keycodes@[i]),
    {
        let ghost pre = *self;
        let mut i: usize = 0;
        while i < keycodes.len()
            invariant
                *self == pre,
                pre == *old(self),
                i <= keycodes@.len(),
                forall|j: int|
                    0 <= j < i ==> !(pre.spec_held(#[trigger] keycodes@[j]) && pre.spec_is_valid(
                        keycodes@[j],
                    )),
            decreases keycodes@.len() - i,
        {
            let keycode = keycodes[i];
            if self.held(keycode) {
                if self.is_valid(keycode) {
                    proof {
                        assert(pre.spec_held(keycodes@[i as int]) && pre.spec_is_valid(
                            keycodes@[i as int],
                        ));
                    }
                    return true;
                }
            }
            i = i + 1;
        }
        false
    }

    /// Whether the key is held this tick, per the state the host fed.
    fn held(&self, keycode: KeyCode) -> (r: bool)
        ensures
            r == self.spec_held(keycode),
    {
        match keycode {
            KeyCode::RControl => self.keys.rcontrol,
            KeyCode::Y => self.keys.y,
            KeyCode::Z => self.keys.z,
            KeyCode::Up => self.keys.up,
            KeyCode::X => self.keys.x,
            KeyCode::Space => self.keys.space,
            KeyCode::Left => self.keys.left,
            KeyCode::Right => self.keys.right,
            KeyCode::Down => self.keys.down,
            _ => false,
        }
    }

    /// Whether the action is asserted this tick.
    pub fn check(&mut self, action: Action) -> (r: bool)
        ensures
            *final(self) == *old(self),
            r == old(self).spec_check(action),
    {
        match action {
            Action::RotateLeft => self.check_keys(&[KeyCode::RControl, KeyCode::Y, KeyCode::Z]),
            Action::RotateRight => self.check_keys(&[KeyCode::Up, KeyCode::X]),
            Action::MoveLeft => self.check_keys(&[KeyCode::Left]),
            Action::MoveRight => self.check_keys(&[KeyCode::Right]),
            Action::SoftDrop => self.check_keys(&[KeyCode::Down]),
            Action::HardDrop => self.check_keys(&[KeyCode::Space]),
            Action::Drop => false,
        }
    }

    /// A human player lets the round drive gravity on its own timer.
    pub fn is_auto_drop(&self) -> (r: bool)
        ensures
            r == true,
    {
        true
    }

    /// A human player needs no notification of consumed actions.
    pub fn push(&mut self, _action: Action)
        ensures
            *final(self) == *old(self),
    {
    }

    /// A human player needs no spawn notification.
    pub fn on_spawn(
        &mut self,
        _map: &Board,
        _current: TileType,
        _next: TileType,
        _score: usize,
        _lines: usize,
        _level: usize,
    )
        ensures
            *final(self) == *old(self),
    {
    }

    /// Remembers which edge-triggered keys are down, so a key held across
    /// ticks does not refire.
    pub fn update(&mut self)
        ensures
            final(self).keys == old(self).keys,
            final(self).was_rcontrol_pressed == old(self).keys.rcontrol,
            final(self).was_y_pressed == old(self).keys.y,
            final(self).was_z_pressed == old(self).keys.z,
            final(self).was_up_pressed == old(self).keys.up,
            final(self).was_x_pressed == old(self).keys.x,
            final(self).was_space_pressed == old(self).keys.space,
    {
        self.was_rcontrol_pressed = self.keys.rcontrol;
        self.was_y_pressed = self.keys.y;
        self.was_z_pressed = self.keys.z;
        self.was_up_pressed = self.keys.up;
        self.was_x_pressed = self.keys.x;
        self.was_space_pressed = self.keys.space;
    }
}

impl Actor for Player {
    fn check(&mut self, action: Action) -> bool {
        Player::check(self, action)
    }

    fn update(&mut self) {
        Player::update(self)
    }
}

} // verus!
